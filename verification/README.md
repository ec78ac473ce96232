# yurt

A dotfile and package manager driven by a YAML build file: symbolic links,
packages and package managers, git repositories and shell hooks, with
`${{ key }}` substitution and per-machine cases.

The library under `src/` is verified with Verus. It decides everything the
program does: how a build file resolves into build units, which command
lines install or remove a package, what a link's state on disk calls for,
how a repository is cloned or fast-forwarded. Each decision is a function
with a contract; what it needs from the outside world (the outcome of a
command, what is on disk) is an argument.

`app/` is the command line program: it parses arguments and the YAML file,
runs the planned command lines, and touches the file system and git.

Layout of `src/`:

- `context` and `context/parse`: the resolution state, keys, the variable
  stack and substitution.
- `specs` and its modules: build specifications (`vars`, `case`, `matrix`,
  `repo`, `link`, `hook`, `package`, `package_manager`), their resolution,
  and the comparison of two resolved builds (`specs/diff`).
- `config`, `args`: build files, version requirements, unit kind filters and
  the command line arguments.
- `condition`, `yaml`, `link`: locale cases and a store of
  `namespace.variable` values.
- `shell`, `units`, `pack`: pipes, remote scripts and built-in package managers.

Data model. Keyed collections are held as ordered lists of pairs:

- The variable stack (`KeyStack`) is one list of `(key, value)` pushes,
  oldest first. The stack of a key is its pushes in order (`stack_of`):
  `get` reads the top and `drop` removes it. `Key` is a struct of strings,
  and the standard maps' specifications give nothing usable for such keys
  (their laws need keys whose hashing and equality the verifier knows), so
  a list keeps every contract provable.
- `vars` entries, matrix rows and package aliases are lists of
  `(key, value)` pairs in the order of the build file. The program fills
  them from the parsed YAML mappings, so their keys are distinct there. The
  library only walks them in order. Where a key appears twice anyway, a
  `vars` entry or a matrix row reads the later value (it is pushed last),
  and a package alias the first (the lookup stops at the first match).
