//! Shells, shell commands and hooks.
use vstd::prelude::*;
use crate::text::{copy_string, owned, is_text};
use crate::context::parse::{Environment, env_lookup, KeyError};

pub mod command;

verus! {

/// Final component of `path` without its extension (`Path::file_stem`).
pub uninterp spec fn file_stem(path: Seq<char>) -> Option<Seq<char>>;

/// `std::path::Path::file_stem`, read back as a `String`; the contract only
/// names the result, the path rules stay the standard library's.
#[verifier::external_body]
fn path_file_stem(path: &str) -> (r: Option<String>)
    ensures
        match r {
            Some(s) => file_stem(path@) == Some(s@),
            None => file_stem(path@) is None,
        },
{
    std::path::Path::new(path).file_stem().and_then(|s| s.to_str()).map(String::from)
}

/// Family of a shell program, taken from the file name of its path.
#[derive(PartialEq, Eq, Structural, Copy, Clone, Debug)]
pub enum ShellKind {
    Sh,
    Bash,
    Zsh,
    Powershell,
    Cmd,
    Other,
    Empty,
}

/// The family of the shell whose file stem is `stem`.
pub open spec fn kind_of_stem(stem: Option<Seq<char>>) -> ShellKind {
    match stem {
        Some(s) => if s == seq!['s', 'h'] {
            ShellKind::Sh
        } else if s == seq!['b', 'a', 's', 'h'] {
            ShellKind::Bash
        } else if s == seq!['z', 's', 'h'] {
            ShellKind::Zsh
        } else if s == seq!['p', 'w', 's', 'h'] {
            ShellKind::Powershell
        } else if s == seq!['c', 'm', 'd'] {
            ShellKind::Cmd
        } else if s.len() == 0 {
            ShellKind::Empty
        } else {
            ShellKind::Other
        },
        None => ShellKind::Empty,
    }
}

impl ShellKind {
    /// The family of the shell program at `command`.
    pub fn from_path(command: &str) -> (r: ShellKind)
        ensures
            r == kind_of_stem(file_stem(command@)),
    {
        let stem = path_file_stem(command);
        Self::from_stem(&stem)
    }

    /// The family of the shell whose program's file stem is `stem`.
    pub fn from_stem(stem: &Option<String>) -> (r: ShellKind)
        ensures
            r == kind_of_stem(match stem {
                Some(s) => Some(s@),
                None => None,
            }),
    {
        proof {
            reveal_strlit("sh");
            assert("sh"@ =~= seq!['s', 'h']);
            reveal_strlit("bash");
            assert("bash"@ =~= seq!['b', 'a', 's', 'h']);
            reveal_strlit("zsh");
            assert("zsh"@ =~= seq!['z', 's', 'h']);
            reveal_strlit("pwsh");
            assert("pwsh"@ =~= seq!['p', 'w', 's', 'h']);
            reveal_strlit("cmd");
            assert("cmd"@ =~= seq!['c', 'm', 'd']);
        }
        match stem {
            Some(stem) => {
                if is_text(stem, "sh") {
                    ShellKind::Sh
                } else if is_text(stem, "bash") {
                    ShellKind::Bash
                } else if is_text(stem, "zsh") {
                    ShellKind::Zsh
                } else if is_text(stem, "pwsh") {
                    ShellKind::Powershell
                } else if is_text(stem, "cmd") {
                    ShellKind::Cmd
                } else if stem.as_str().is_empty() {
                    ShellKind::Empty
                } else {
                    ShellKind::Other
                }
            },
            None => ShellKind::Empty,
        }
    }
}

/// A program and its arguments, ready to be run.
pub struct CommandLine {
    pub program: String,
    pub args: Vec<String>,
}

/// Mathematical form of a [`CommandLine`].
pub struct CommandLineView {
    pub program: Seq<char>,
    pub args: Seq<Seq<char>>,
}

impl View for CommandLine {
    type V = CommandLineView;

    open spec fn view(&self) -> CommandLineView {
        CommandLineView { program: self.program@, args: self.args@.map_values(|a: String| a@) }
    }
}

/// Shell program used to run commands.
pub struct Shell {
    pub kind: ShellKind,
    pub command: String,
}

/// Mathematical form of a [`Shell`].
pub struct ShellView {
    pub kind: ShellKind,
    pub command: Seq<char>,
}

impl View for Shell {
    type V = ShellView;

    open spec fn view(&self) -> ShellView {
        ShellView { kind: self.kind, command: self.command@ }
    }
}

/// The shell run by the program at `command`.
pub open spec fn shell_of(command: Seq<char>) -> ShellView {
    ShellView { kind: kind_of_stem(file_stem(command)), command }
}

/// The shell used when none is configured on the operating system `os`
/// (`cmd` on Windows, `zsh` on macOS, `sh` elsewhere).
pub open spec fn default_shell_program(os: Seq<char>) -> Seq<char> {
    if os == seq!['w', 'i', 'n', 'd', 'o', 'w', 's'] {
        seq!['c', 'm', 'd']
    } else if os == seq!['m', 'a', 'c', 'o', 's'] {
        seq!['z', 's', 'h']
    } else {
        seq!['s', 'h']
    }
}

/// The flag that makes the shell of kind `kind` run a command string.
pub open spec fn run_flag(kind: ShellKind) -> Seq<char> {
    match kind {
        ShellKind::Cmd => seq!['/', 'C'],
        _ => seq!['-', 'c'],
    }
}

impl Shell {
    /// The shell run by the program `command`.
    pub fn from(command: String) -> (r: Shell)
        ensures
            r@ == shell_of(command@),
    {
        Shell { kind: ShellKind::from_path(command.as_str()), command }
    }

    /// The default shell of the operating system `os` (as named by
    /// `std::env::consts::OS`).
    pub fn for_os(os: &str) -> (r: Shell)
        ensures
            r@ == shell_of(default_shell_program(os@)),
    {
        proof {
            reveal_strlit("windows");
            assert("windows"@ =~= seq!['w', 'i', 'n', 'd', 'o', 'w', 's']);
            reveal_strlit("macos");
            assert("macos"@ =~= seq!['m', 'a', 'c', 'o', 's']);
            reveal_strlit("cmd");
            assert("cmd"@ =~= seq!['c', 'm', 'd']);
            reveal_strlit("zsh");
            assert("zsh"@ =~= seq!['z', 's', 'h']);
            reveal_strlit("sh");
        assert("sh"@ =~= seq!['s', 'h']);
        }
        let os_name = owned(os);
        if is_text(&os_name, "windows") {
            Shell::from(owned("cmd"))
        } else if is_text(&os_name, "macos") {
            Shell::from(owned("zsh"))
        } else {
            Shell::from(owned("sh"))
        }
    }

    /// The shell named by the `SHELL` variable of `env`, or the default shell
    /// of `os` when it is not set.
    pub fn from_env(env: &Environment, os: &str) -> (r: Shell)
        ensures
            r@ == match env_lookup(env@, seq!['S', 'H', 'E', 'L', 'L']) {
                Some(s) => shell_of(s),
                None => shell_of(default_shell_program(os@)),
            },
    {
        proof {
            reveal_strlit("SHELL");
        assert("SHELL"@ =~= seq!['S', 'H', 'E', 'L', 'L']);
        }
        match env.var(&owned("SHELL")) {
            Some(s) => Shell::from(s),
            None => Shell::for_os(os),
        }
    }

    /// The command line that runs `command` in this shell
    /// (`<shell> -c <command>`, or `<shell> /C <command>` for `cmd`).
    pub fn exec(&self, command: &str) -> (r: CommandLine)
        ensures
            r@ == (CommandLineView { program: self.command@, args: seq![run_flag(self.kind), command@] }),
    {
        proof {
            reveal_strlit("/C");
            assert("/C"@ =~= seq!['/', 'C']);
            reveal_strlit("-c");
        assert("-c"@ =~= seq!['-', 'c']);
        }
        let flag = match self.kind {
            ShellKind::Cmd => owned("/C"),
            _ => owned("-c"),
        };
        let mut args: Vec<String> = Vec::new();
        args.push(flag);
        args.push(owned(command));
        let r = CommandLine { program: copy_string(&self.command), args };
        assert(r@.args =~= seq![run_flag(self.kind), command@]);
        r
    }

    /// The same command line as [`Shell::exec`]; the caller reads the exit
    /// status as the answer instead of as success or failure.
    pub fn exec_bool(&self, command: &str) -> (r: CommandLine)
        ensures
            r@ == (CommandLineView { program: self.command@, args: seq![run_flag(self.kind), command@] }),
    {
        self.exec(command)
    }

    /// A copy of the shell.
    pub fn duplicate(&self) -> (r: Shell)
        ensures
            r@ == self@,
    {
        Shell { kind: self.kind, command: copy_string(&self.command) }
    }
}

/// Shell command: a command string and the shell that runs it.
pub struct ShellCommand {
    pub shell: Shell,
    pub command: String,
}

/// Mathematical form of a [`ShellCommand`].
pub struct ShellCommandView {
    pub shell: ShellView,
    pub command: Seq<char>,
}

impl View for ShellCommand {
    type V = ShellCommandView;

    open spec fn view(&self) -> ShellCommandView {
        ShellCommandView { shell: self.shell@, command: self.command@ }
    }
}

/// The command line that runs the shell command `c`.
pub open spec fn command_line_of(c: ShellCommandView) -> CommandLineView {
    CommandLineView { program: c.shell.command, args: seq![run_flag(c.shell.kind), c.command] }
}

impl ShellCommand {
    /// `command` run by `shell`.
    pub fn new(shell: Shell, command: String) -> (r: ShellCommand)
        ensures
            r@ == (ShellCommandView { shell: shell@, command: command@ }),
    {
        ShellCommand { shell, command }
    }

    /// `command` run by the user's shell: the one named by `SHELL` in
    /// `env`, or the default shell of `os`.
    pub fn from(command: String, env: &Environment, os: &str) -> (r: ShellCommand)
        ensures
            r@.command == command@,
            r@.shell == match env_lookup(env@, seq!['S', 'H', 'E', 'L', 'L']) {
                Some(s) => shell_of(s),
                None => shell_of(default_shell_program(os@)),
            },
    {
        ShellCommand { shell: Shell::from_env(env, os), command }
    }

    /// The command line that runs this command.
    pub fn exec(&self) -> (r: CommandLine)
        ensures
            r@ == command_line_of(self@),
    {
        self.shell.exec(self.command.as_str())
    }

    /// The command line that runs this command, whose exit status is the answer.
    pub fn exec_bool(&self) -> (r: CommandLine)
        ensures
            r@ == command_line_of(self@),
    {
        self.shell.exec_bool(self.command.as_str())
    }

    /// A copy of the command.
    pub fn duplicate(&self) -> (r: ShellCommand)
        ensures
            r@ == self@,
    {
        ShellCommand { shell: self.shell.duplicate(), command: copy_string(&self.command) }
    }
}

/// Entry point on which a [`ShellHook`] runs.
pub enum Hook {
    /// `yurt install`
    Install,
    /// `yurt uninstall`
    Uninstall,
    /// `yurt hook <custom_hook>`
    Custom(String),
}

/// Mathematical form of a [`Hook`].
pub enum HookView {
    Install,
    Uninstall,
    Custom(Seq<char>),
}

impl View for Hook {
    type V = HookView;

    open spec fn view(&self) -> HookView {
        match self {
            Hook::Install => HookView::Install,
            Hook::Uninstall => HookView::Uninstall,
            Hook::Custom(s) => HookView::Custom(s@),
        }
    }
}

/// The hook named `name`: `install`, `uninstall`, or a custom hook.
pub open spec fn hook_named(name: Seq<char>) -> HookView {
    if name == seq!['i', 'n', 's', 't', 'a', 'l', 'l'] {
        HookView::Install
    } else if name == seq!['u', 'n', 'i', 'n', 's', 't', 'a', 'l', 'l'] {
        HookView::Uninstall
    } else {
        HookView::Custom(name)
    }
}

impl Hook {
    /// The hook named `value`.
    pub fn from(value: String) -> (r: Hook)
        ensures
            r@ == hook_named(value@),
    {
        proof {
            reveal_strlit("install");
            assert("install"@ =~= seq!['i', 'n', 's', 't', 'a', 'l', 'l']);
            reveal_strlit("uninstall");
        assert("uninstall"@ =~= seq!['u', 'n', 'i', 'n', 's', 't', 'a', 'l', 'l']);
        }
        if is_text(&value, "install") {
            Hook::Install
        } else if is_text(&value, "uninstall") {
            Hook::Uninstall
        } else {
            Hook::Custom(value)
        }
    }

    /// Exact comparison of two hooks.
    pub fn same(&self, other: &Hook) -> (r: bool)
        ensures
            r == (self@ == other@),
    {
        match self {
            Hook::Install => match other {
                Hook::Install => true,
                _ => false,
            },
            Hook::Uninstall => match other {
                Hook::Uninstall => true,
                _ => false,
            },
            Hook::Custom(a) => match other {
                Hook::Custom(b) => *a == *b,
                _ => false,
            },
        }
    }

    /// A copy of the hook.
    pub fn duplicate(&self) -> (r: Hook)
        ensures
            r@ == self@,
    {
        match self {
            Hook::Install => Hook::Install,
            Hook::Uninstall => Hook::Uninstall,
            Hook::Custom(s) => Hook::Custom(copy_string(s)),
        }
    }
}

/// Shell command that is run for a specific entry point.
pub struct ShellHook {
    /// Hooks to run the command on.
    pub on: Vec<Hook>,
    /// Command to run (the `exec` entry of the build file).
    pub command: ShellCommand,
}

/// Mathematical form of a [`ShellHook`].
pub struct ShellHookView {
    pub on: Seq<HookView>,
    pub command: ShellCommandView,
}

impl View for ShellHook {
    type V = ShellHookView;

    open spec fn view(&self) -> ShellHookView {
        ShellHookView { on: self.on@.map_values(|h: Hook| h@), command: self.command@ }
    }
}

impl ShellHook {
    /// Whether the command runs on `hook`.
    pub fn applies(&self, hook: &Hook) -> (r: bool)
        ensures
            r == self@.on.contains(hook@),
    {
        let mut i: usize = 0;
        while i < self.on.len()
            invariant
                i <= self.on@.len(),
                forall|j: int| 0 <= j < i ==> self@.on[j] != hook@,
            decreases self.on@.len() - i,
        {
            if self.on[i].same(hook) {
                assert(self@.on[i as int] == hook@);
                return true;
            }
            i = i + 1;
        }
        false
    }

    /// The command line of the hook's command.
    pub fn exec(&self) -> (r: CommandLine)
        ensures
            r@ == command_line_of(self@.command),
    {
        self.command.exec()
    }

    /// The command line to run for `hook`: the hook's command when it
    /// applies, nothing otherwise.
    pub fn exec_for(&self, hook: &Hook) -> (r: Option<CommandLine>)
        ensures
            match r {
                Some(c) => self@.on.contains(hook@) && c@ == command_line_of(self@.command),
                None => !self@.on.contains(hook@),
            },
    {
        if self.applies(hook) {
            Some(self.exec())
        } else {
            None
        }
    }
}

/// Every shell runs a command string given after `-c`, except `cmd`, which
/// takes it after `/C`: the flag is `/C` exactly for the `cmd` kind.
pub proof fn law_run_flag_is_dash_c_except_for_cmd(kind: ShellKind)
    ensures
        kind == ShellKind::Cmd ==> run_flag(kind) == seq!['/', 'C'],
        kind != ShellKind::Cmd ==> run_flag(kind) == seq!['-', 'c'],
{
}

/// A shell command runs as the shell's program followed by two arguments:
/// the run flag of its kind and the command text itself. A program whose
/// file stem is `cmd` gets `/C`; any other program, `pwsh` and `bash`
/// included, gets `-c`.
pub proof fn law_command_line_runs_text_after_flag(c: ShellCommandView)
    ensures
        command_line_of(c).program == c.shell.command,
        command_line_of(c).args.len() == 2,
        command_line_of(c).args[1] == c.command,
        c.shell == shell_of(c.shell.command) && file_stem(c.shell.command) == Some(seq!['c', 'm', 'd'])
            ==> command_line_of(c).args[0] == seq!['/', 'C'],
        c.shell == shell_of(c.shell.command) && file_stem(c.shell.command) != Some(seq!['c', 'm', 'd'])
            ==> command_line_of(c).args[0] == seq!['-', 'c'],
{
    let stem = file_stem(c.shell.command);
    if c.shell == shell_of(c.shell.command) && stem != Some(seq!['c', 'm', 'd']) {
        match stem {
            Some(t) => {
                assert(t != seq!['c', 'm', 'd']);
                assert(kind_of_stem(stem) != ShellKind::Cmd);
            },
            None => {},
        }
    }
}

/// The shell kind is read from the program's file stem: `sh`, `bash`,
/// `zsh`, `pwsh` (PowerShell) and `cmd` name their kinds; an empty or
/// missing stem is the empty kind; any other stem is another shell.
pub proof fn law_kind_of_stem_names(stem: Seq<char>)
    ensures
        kind_of_stem(Some(seq!['s', 'h'])) == ShellKind::Sh,
        kind_of_stem(Some(seq!['b', 'a', 's', 'h'])) == ShellKind::Bash,
        kind_of_stem(Some(seq!['z', 's', 'h'])) == ShellKind::Zsh,
        kind_of_stem(Some(seq!['p', 'w', 's', 'h'])) == ShellKind::Powershell,
        kind_of_stem(Some(seq!['c', 'm', 'd'])) == ShellKind::Cmd,
        kind_of_stem(None) == ShellKind::Empty,
        kind_of_stem(Some(Seq::<char>::empty())) == ShellKind::Empty,
        stem.len() > 0 && stem != seq!['s', 'h'] && stem != seq!['b', 'a', 's', 'h'] && stem != seq!['z', 's', 'h']
            && stem != seq!['p', 'w', 's', 'h'] && stem != seq!['c', 'm', 'd'] ==> kind_of_stem(Some(stem)) == ShellKind::Other,
{
    assert(seq!['s', 'h'].len() > 0);
    assert(seq!['b', 'a', 's', 'h'].len() > 0);
    assert(seq!['z', 's', 'h'].len() > 0);
    assert(seq!['p', 'w', 's', 'h'].len() > 0);
    assert(seq!['c', 'm', 'd'].len() > 0);
}

/// The default shell is `cmd` on Windows, `zsh` on macOS and `sh` on every
/// other system.
pub proof fn law_default_shell(os: Seq<char>)
    ensures
        default_shell_program(seq!['w', 'i', 'n', 'd', 'o', 'w', 's']) == seq!['c', 'm', 'd'],
        default_shell_program(seq!['m', 'a', 'c', 'o', 's']) == seq!['z', 's', 'h'],
        os != seq!['w', 'i', 'n', 'd', 'o', 'w', 's'] && os != seq!['m', 'a', 'c', 'o', 's']
            ==> default_shell_program(os) == seq!['s', 'h'],
{
}

/// The hook named `install` is the install hook, `uninstall` the uninstall
/// hook, and any other name a custom hook of that name.
pub proof fn law_hook_names(name: Seq<char>)
    ensures
        hook_named(seq!['i', 'n', 's', 't', 'a', 'l', 'l']) == HookView::Install,
        hook_named(seq!['u', 'n', 'i', 'n', 's', 't', 'a', 'l', 'l']) == HookView::Uninstall,
        name != seq!['i', 'n', 's', 't', 'a', 'l', 'l'] && name != seq!['u', 'n', 'i', 'n', 's', 't', 'a', 'l', 'l']
            ==> hook_named(name) == HookView::Custom(name),
{
}

} // verus!
