//! Packages and the package managers that install them.
use vstd::prelude::*;
use crate::text::{copy_string, copy_strings, owned, is_text};
use crate::context::{Context, manager_entries, entry_names, entry_index, has_manager, manager_names, insert_manager, entries_insert, opt_view, copy_opt, manager_index, manager_at};
use crate::context::parse::{
    Key, Resolver, KeyError, KeyErrorView, KeyView, parse_key, substitute, substitution, result_view, lookup_of,
    reference_end, law_text_without_references_is_kept,
};
use crate::specs::shell::{ShellCommand, ShellCommandView, CommandLine, CommandLineView, run_flag};

verus! {

/// Command line package manager.
pub struct PackageManager {
    /// Identifier referenced from a [`Package`].
    pub name: String,
    /// Command to self-install if unavailable.
    pub shell_bootstrap: Option<ShellCommand>,
    /// Command to install a package.
    pub shell_install: Option<ShellCommand>,
    /// Command to uninstall a package.
    pub shell_uninstall: Option<ShellCommand>,
    /// Command to check if a package is already installed.
    pub shell_has: Option<ShellCommand>,
}

/// Mathematical form of a [`PackageManager`].
pub struct PackageManagerView {
    pub name: Seq<char>,
    pub shell_bootstrap: Option<ShellCommandView>,
    pub shell_install: Option<ShellCommandView>,
    pub shell_uninstall: Option<ShellCommandView>,
    pub shell_has: Option<ShellCommandView>,
}

/// An optional shell command taken by its view.
pub open spec fn opt_command_view(c: Option<ShellCommand>) -> Option<ShellCommandView> {
    match c {
        Some(c) => Some(c@),
        None => None,
    }
}

impl View for PackageManager {
    type V = PackageManagerView;

    open spec fn view(&self) -> PackageManagerView {
        PackageManagerView {
            name: self.name@,
            shell_bootstrap: opt_command_view(self.shell_bootstrap),
            shell_install: opt_command_view(self.shell_install),
            shell_uninstall: opt_command_view(self.shell_uninstall),
            shell_has: opt_command_view(self.shell_has),
        }
    }
}

fn copy_command(c: &Option<ShellCommand>) -> (r: Option<ShellCommand>)
    ensures
        opt_command_view(r) == opt_command_view(*c),
{
    match c {
        Some(c) => Some(c.duplicate()),
        None => None,
    }
}

impl PackageManager {
    /// A copy of the manager.
    pub fn duplicate(&self) -> (r: PackageManager)
        ensures
            r@ == self@,
    {
        PackageManager {
            name: copy_string(&self.name),
            shell_bootstrap: copy_command(&self.shell_bootstrap),
            shell_install: copy_command(&self.shell_install),
            shell_uninstall: copy_command(&self.shell_uninstall),
            shell_has: copy_command(&self.shell_has),
        }
    }
}

/// Installable binary package.
pub struct Package {
    /// Primary identifier of the package.
    pub name: String,
    /// Names of the package managers used to manage the package.
    pub managers: Vec<String>,
    /// Identifier overrides for certain package managers: `(manager, alias)`.
    pub aliases: Vec<(String, String)>,
}

/// Mathematical form of a [`Package`].
pub struct PackageView {
    pub name: Seq<char>,
    pub managers: Seq<Seq<char>>,
    pub aliases: Seq<(Seq<char>, Seq<char>)>,
}

impl View for Package {
    type V = PackageView;

    open spec fn view(&self) -> PackageView {
        PackageView {
            name: self.name@,
            managers: self.managers@.map_values(|m: String| m@),
            aliases: self.aliases@.map_values(|a: (String, String)| (a.0@, a.1@)),
        }
    }
}

/// The alias listed first for `manager` in `aliases`, or `default`.
pub open spec fn alias_for(aliases: Seq<(Seq<char>, Seq<char>)>, manager: Seq<char>, default: Seq<char>) -> Seq<char>
    decreases aliases.len(),
{
    if aliases.len() == 0 {
        default
    } else if aliases[0].0 == manager {
        aliases[0].1
    } else {
        alias_for(aliases.drop_first(), manager, default)
    }
}

/// The key `${{ package.alias }}` that a manager's commands use for the package.
pub open spec fn package_alias_key() -> KeyView {
    KeyView::ObjectAttr {
        object: seq!['p', 'a', 'c', 'k', 'a', 'g', 'e'],
        attr: seq!['a', 'l', 'i', 'a', 's'],
    }
}

/// Value of the reference text `inner` when only `${{ package.alias }}` is accepted.
pub open spec fn alias_value(alias: Seq<char>, inner: Seq<char>) -> Result<Seq<char>, KeyErrorView> {
    match parse_key(inner) {
        None => Err(KeyErrorView::Invalid(inner)),
        Some(k) => if k == package_alias_key() {
            Ok(alias)
        } else {
            Err(KeyErrorView::Unexpected(k))
        },
    }
}

/// Resolves `${{ package.alias }}` to one package's alias.
pub struct AliasResolver {
    pub alias: String,
}

impl Resolver for AliasResolver {
    open spec fn spec_value(&self, inner: Seq<char>) -> Result<Seq<char>, KeyErrorView> {
        alias_value(self.alias@, inner)
    }

    fn value(&self, inner: &Vec<char>) -> (r: Result<String, KeyError>) {
        proof {
            reveal_strlit("package");
            assert("package"@ =~= seq!['p', 'a', 'c', 'k', 'a', 'g', 'e']);
            reveal_strlit("alias");
            assert("alias"@ =~= seq!['a', 'l', 'i', 'a', 's']);
        }
        match Key::parse_chars(inner) {
            Ok(k) => {
                let expected = Key::ObjectAttr { object: owned("package"), attr: owned("alias") };
                if k.same(&expected) {
                    Ok(copy_string(&self.alias))
                } else {
                    Err(KeyError::Unexpected(k))
                }
            },
            Err(e) => Err(KeyError::Invalid(e.text)),
        }
    }
}

/// A copy of a list of `(key, value)` strings.
pub fn copy_pairs(v: &Vec<(String, String)>) -> (r: Vec<(String, String)>)
    ensures
        r@.map_values(|a: (String, String)| (a.0@, a.1@)) == v@.map_values(|a: (String, String)| (a.0@, a.1@)),
{
    let mut r: Vec<(String, String)> = Vec::new();
    let mut i: usize = 0;
    while i < v.len()
        invariant
            i <= v@.len(),
            r@.map_values(|a: (String, String)| (a.0@, a.1@)) =~= v@.take(i as int).map_values(|a: (String, String)| (a.0@, a.1@)),
        decreases v@.len() - i,
    {
        let ghost before = r@;
        let p = (copy_string(&v[i].0), copy_string(&v[i].1));
        r.push(p);
        assert(r@ =~= before.push(p));
        assert(v@.take(i + 1) =~= v@.take(i as int).push(v@[i as int]));
        assert(r@.map_values(|a: (String, String)| (a.0@, a.1@)) =~= before.map_values(|a: (String, String)| (a.0@, a.1@)).push((p.0@, p.1@)));
        i = i + 1;
    }
    assert(v@.take(v@.len() as int) =~= v@);
    r
}

impl Package {
    /// A copy of the package.
    pub fn duplicate(&self) -> (r: Package)
        ensures
            r@ == self@,
    {
        Package { name: copy_string(&self.name), managers: copy_strings(&self.managers), aliases: copy_pairs(&self.aliases) }
    }

    /// The identifier of the package for `manager`: its alias for the
    /// manager's name, or the package name.
    pub fn alias(&self, manager: &PackageManager) -> (r: String)
        ensures
            r@ == alias_for(self@.aliases, manager@.name, self@.name),
    {
        let mut i: usize = 0;
        assert(self@.aliases.skip(0) =~= self@.aliases);
        while i < self.aliases.len()
            invariant
                i <= self.aliases@.len(),
                alias_for(self@.aliases, manager@.name, self@.name)
                    == alias_for(self@.aliases.skip(i as int), manager@.name, self@.name),
            decreases self.aliases@.len() - i,
        {
            assert(self@.aliases.skip(i as int)[0] == self@.aliases[i as int]);
            assert(self@.aliases.skip(i as int).drop_first() =~= self@.aliases.skip(i + 1));
            if self.aliases[i].0 == manager.name {
                return copy_string(&self.aliases[i].1);
            }
            i = i + 1;
        }
        copy_string(&self.name)
    }

    /// The package with its name substituted and its managers narrowed to
    /// those declared in `context`: all declared managers, in declaration
    /// order, when the package names none; otherwise the named managers that
    /// are declared, in the package's order.
    pub fn resolve(self, context: &Context) -> (r: Result<Package, KeyError>)
        ensures
            match r {
                Ok(p) => substitution(lookup_of(context), self@.name, 0) == Ok::<Seq<char>, KeyErrorView>(p@.name)
                    && p@.aliases == self@.aliases
                    && p@.managers == (if self@.managers.len() == 0 {
                        entry_names(manager_entries(context.managers))
                    } else {
                        self@.managers.filter(|m: Seq<char>| entry_names(manager_entries(context.managers)).contains(m))
                    }),
                Err(e) => substitution(lookup_of(context), self@.name, 0) == Err::<Seq<char>, KeyErrorView>(e@),
            },
    {
        let name = match context.parse_str(self.name.as_str()) {
            Ok(n) => n,
            Err(e) => return Err(e),
        };
        let managers = if self.managers.len() == 0 {
            manager_names(&context.managers)
        } else {
            let ghost declared = entry_names(manager_entries(context.managers));
            let ghost pred = |m: Seq<char>| declared.contains(m);
            let ghost src = self@.managers;
            let mut kept: Vec<String> = Vec::new();
            let mut i: usize = 0;
            while i < self.managers.len()
                invariant
                    i <= self.managers@.len(),
                    src == self.managers@.map_values(|m: String| m@),
                    declared == entry_names(manager_entries(context.managers)),
                    pred == (|m: Seq<char>| declared.contains(m)),
                    kept@.map_values(|m: String| m@) == src.take(i as int).filter(pred),
                decreases self.managers@.len() - i,
            {
                reveal_with_fuel(Seq::filter, 1);
                assert(src.take(i + 1).drop_last() =~= src.take(i as int));
                let ghost before = kept@;
                if has_manager(&context.managers, &self.managers[i]) {
                    let m = copy_string(&self.managers[i]);
                    kept.push(m);
                    assert(kept@ =~= before.push(m));
                    assert(kept@.map_values(|m: String| m@) =~= before.map_values(|m: String| m@).push(m@));
                }
                i = i + 1;
            }
            assert(src.take(src.len() as int) =~= src);
            kept
        };
        Ok(Package { name, managers, aliases: self.aliases })
    }
}

/// Why a package manager command could not be prepared.
#[derive(Debug)]
pub enum PackageError {
    /// The manager declares no command of this kind.
    NotImplemented { manager: String, command: String },
    /// The package could not be substituted into the command.
    Substitution { manager: String, command: String, error: KeyError },
}

/// Mathematical form of a [`PackageError`].
pub enum PackageErrorView {
    NotImplemented { manager: Seq<char>, command: Seq<char> },
    Substitution { manager: Seq<char>, command: Seq<char>, error: KeyErrorView },
}

impl View for PackageError {
    type V = PackageErrorView;

    open spec fn view(&self) -> PackageErrorView {
        match self {
            PackageError::NotImplemented { manager, command } => PackageErrorView::NotImplemented {
                manager: manager@,
                command: command@,
            },
            PackageError::Substitution { manager, command, error } => PackageErrorView::Substitution {
                manager: manager@,
                command: command@,
                error: error@,
            },
        }
    }
}

/// A shell command with its command string replaced.
pub open spec fn with_command(c: ShellCommandView, command: Seq<char>) -> ShellCommandView {
    ShellCommandView { command, ..c }
}

/// The command line of `slot` (named `name`) of manager `m`, with the
/// alias `alias` substituted for `${{ package.alias }}`.
pub open spec fn package_command(
    m: PackageManagerView,
    slot: Option<ShellCommandView>,
    name: Seq<char>,
    alias: Seq<char>,
) -> Result<CommandLineView, PackageErrorView> {
    match slot {
        None => Err(PackageErrorView::NotImplemented { manager: m.name, command: name }),
        Some(c) => match substitution(|inner: Seq<char>| alias_value(alias, inner), c.command, 0) {
            Ok(cmd) => Ok(crate::specs::shell::command_line_of(with_command(c, cmd))),
            Err(e) => Err(PackageErrorView::Substitution { manager: m.name, command: name, error: e }),
        },
    }
}

/// The command line of `slot` (named `name`) of manager `m`, as is.
pub open spec fn manager_command(
    m: PackageManagerView,
    slot: Option<ShellCommandView>,
    name: Seq<char>,
) -> Result<CommandLineView, PackageErrorView> {
    match slot {
        None => Err(PackageErrorView::NotImplemented { manager: m.name, command: name }),
        Some(c) => Ok(crate::specs::shell::command_line_of(c)),
    }
}

/// A command result taken by its view.
pub open spec fn command_result_view(r: &Result<CommandLine, PackageError>) -> Result<CommandLineView, PackageErrorView> {
    match r {
        Ok(c) => Ok(c@),
        Err(e) => Err(e@),
    }
}

/// The command line that checks whether `name` is an available program:
/// `where <name>` on Windows, `which <name>` elsewhere.
pub open spec fn which_command(name: Seq<char>, os: Seq<char>) -> CommandLineView {
    CommandLineView {
        program: if os == seq!['w', 'i', 'n', 'd', 'o', 'w', 's'] {
            seq!['w', 'h', 'e', 'r', 'e']
        } else {
            seq!['w', 'h', 'i', 'c', 'h']
        },
        args: seq![name],
    }
}

/// The command line that checks whether the program `name` is available
/// on the operating system `os`.
pub fn which_has(name: &str, os: &str) -> (r: CommandLine)
    ensures
        r@ == which_command(name@, os@),
{
    proof {
        reveal_strlit("windows");
        assert("windows"@ =~= seq!['w', 'i', 'n', 'd', 'o', 'w', 's']);
        reveal_strlit("where");
        assert("where"@ =~= seq!['w', 'h', 'e', 'r', 'e']);
        reveal_strlit("which");
        assert("which"@ =~= seq!['w', 'h', 'i', 'c', 'h']);
    }
    let program = if is_text(&owned(os), "windows") {
        owned("where")
    } else {
        owned("which")
    };
    let mut args: Vec<String> = Vec::new();
    args.push(owned(name));
    let r = CommandLine { program, args };
    assert(r@.args =~= seq![name@]);
    r
}

impl PackageManager {
    /// `command` with `${{ package.alias }}` replaced by the identifier of
    /// `package` for this manager.
    pub fn inject_package(&self, command: &ShellCommand, package: &Package) -> (r: Result<ShellCommand, KeyError>)
        ensures
            match r {
                Ok(c) => c@ == with_command(command@, c@.command)
                    && substitution(
                        |inner: Seq<char>| alias_value(alias_for(package@.aliases, self@.name, package@.name), inner),
                        command@.command,
                        0,
                    ) == Ok::<Seq<char>, KeyErrorView>(c@.command),
                Err(e) => substitution(
                    |inner: Seq<char>| alias_value(alias_for(package@.aliases, self@.name, package@.name), inner),
                    command@.command,
                    0,
                ) == Err::<Seq<char>, KeyErrorView>(e@),
            },
    {
        let resolver = AliasResolver { alias: package.alias(self) };
        let ghost a = alias_for(package@.aliases, self@.name, package@.name);
        assert(lookup_of(&resolver) =~= (|inner: Seq<char>| alias_value(a, inner)));
        match substitute(&resolver, command.command.as_str()) {
            Ok(s) => Ok(ShellCommand { shell: command.shell.duplicate(), command: s }),
            Err(e) => Err(e),
        }
    }

    fn package_slot(&self, slot: &Option<ShellCommand>, name: &str, package: &Package) -> (r: Result<CommandLine, PackageError>)
        ensures
            command_result_view(&r) == package_command(self@, opt_command_view(*slot), name@,
                alias_for(package@.aliases, self@.name, package@.name)),
    {
        match slot {
            None => Err(PackageError::NotImplemented { manager: copy_string(&self.name), command: owned(name) }),
            Some(c) => match self.inject_package(c, package) {
                Ok(injected) => Ok(injected.exec()),
                Err(e) => Err(PackageError::Substitution { manager: copy_string(&self.name), command: owned(name), error: e }),
            },
        }
    }

    /// The command line that installs `package` (`shell_install` with the
    /// package's alias substituted).
    pub fn install_package(&self, package: &Package) -> (r: Result<CommandLine, PackageError>)
        ensures
            command_result_view(&r) == package_command(self@, self@.shell_install,
                seq!['s', 'h', 'e', 'l', 'l', '_', 'i', 'n', 's', 't', 'a', 'l', 'l'],
                alias_for(package@.aliases, self@.name, package@.name)),
    {
        proof {
            reveal_strlit("shell_install");
            assert("shell_install"@ =~= seq!['s', 'h', 'e', 'l', 'l', '_', 'i', 'n', 's', 't', 'a', 'l', 'l']);
        }
        self.package_slot(&self.shell_install, "shell_install", package)
    }

    /// The command line that uninstalls `package` (`shell_uninstall` with
    /// the package's alias substituted).
    pub fn uninstall_package(&self, package: &Package) -> (r: Result<CommandLine, PackageError>)
        ensures
            command_result_view(&r) == package_command(self@, self@.shell_uninstall,
                seq!['s', 'h', 'e', 'l', 'l', '_', 'u', 'n', 'i', 'n', 's', 't', 'a', 'l', 'l'],
                alias_for(package@.aliases, self@.name, package@.name)),
    {
        proof {
            reveal_strlit("shell_uninstall");
            assert("shell_uninstall"@ =~= seq!['s', 'h', 'e', 'l', 'l', '_', 'u', 'n', 'i', 'n', 's', 't', 'a', 'l', 'l']);
        }
        self.package_slot(&self.shell_uninstall, "shell_uninstall", package)
    }

    /// The command line whose success tells that `package` is installed
    /// (`shell_has` with the package's alias substituted). The caller counts
    /// an error, here or when running the command, as "not installed".
    pub fn has(&self, package: &Package) -> (r: Result<CommandLine, PackageError>)
        ensures
            command_result_view(&r) == package_command(self@, self@.shell_has,
                seq!['s', 'h', 'e', 'l', 'l', '_', 'h', 'a', 's'],
                alias_for(package@.aliases, self@.name, package@.name)),
    {
        proof {
            reveal_strlit("shell_has");
            assert("shell_has"@ =~= seq!['s', 'h', 'e', 'l', 'l', '_', 'h', 'a', 's']);
        }
        self.package_slot(&self.shell_has, "shell_has", package)
    }

    /// The command line that installs the manager itself (`shell_bootstrap`).
    pub fn bootstrap(&self) -> (r: Result<CommandLine, PackageError>)
        ensures
            command_result_view(&r) == manager_command(self@, self@.shell_bootstrap,
                seq!['s', 'h', 'e', 'l', 'l', '_', 'b', 'o', 'o', 't', 's', 't', 'r', 'a', 'p']),
    {
        proof {
            reveal_strlit("shell_bootstrap");
            assert("shell_bootstrap"@ =~= seq!['s', 'h', 'e', 'l', 'l', '_', 'b', 'o', 'o', 't', 's', 't', 'r', 'a', 'p']);
        }
        match &self.shell_bootstrap {
            None => Err(PackageError::NotImplemented { manager: copy_string(&self.name), command: owned("shell_bootstrap") }),
            Some(c) => Ok(c.exec()),
        }
    }

    /// The command line that checks whether the manager's program is
    /// available on the operating system `os`.
    pub fn is_available(&self, os: &str) -> (r: CommandLine)
        ensures
            r@ == which_command(self@.name, os@),
    {
        which_has(self.name.as_str(), os)
    }

    /// Declares the manager in `context` under its name (replacing an
    /// earlier declaration in place) and returns it unchanged.
    pub fn resolve(self, context: &mut Context) -> (r: PackageManager)
        ensures
            r@ == self@,
            manager_entries(final(context).managers) == entries_insert(manager_entries(old(context).managers), self@.name, self@),
            final(context).variables@ == old(context).variables@,
            final(context).locale@ == old(context).locale@,
            final(context).environment@ == old(context).environment@,
            final(context).home_dir@ == old(context).home_dir@,
    {
        insert_manager(&mut context.managers, copy_string(&self.name), self.duplicate());
        self
    }
}

/// The managers named in `names` that have an entry in `e`, in the order of
/// `names`, each as its entry holds it.
pub open spec fn declared_of(names: Seq<Seq<char>>, e: Seq<(Seq<char>, PackageManagerView)>) -> Seq<PackageManagerView>
    decreases names.len(),
{
    if names.len() == 0 {
        Seq::empty()
    } else {
        let rest = declared_of(names.drop_last(), e);
        let i = entry_index(e, names.last(), 0);
        if i >= 0 {
            rest.push(e[i].1)
        } else {
            rest
        }
    }
}

/// Managers taken by their views.
pub open spec fn managers_view(ms: Seq<PackageManager>) -> Seq<PackageManagerView> {
    ms.map_values(|m: PackageManager| m@)
}

/// What installing a package does next.
pub enum InstallStep {
    /// The package is installed already: nothing to do.
    Installed,
    /// Run `line`, the install command of the manager at `index`.
    Run { index: usize, line: CommandLine },
    /// The install command of the manager at `index` cannot be prepared:
    /// report `error` and go on with the next manager.
    Failed { index: usize, error: PackageError },
    /// The command of the manager at `index` ran successfully: the package
    /// is installed.
    Done { index: usize },
    /// No manager is left to try: the package is unavailable.
    Unavailable,
}

/// The last install attempt: the manager at `index` was tried, and its
/// command ran successfully or not (a command that could not be prepared
/// did not succeed).
#[derive(Clone, Copy, Debug)]
pub struct InstallAttempt {
    pub index: usize,
    pub succeeded: bool,
}

/// An install attempt taken by its view.
pub open spec fn attempt_view(a: Option<InstallAttempt>) -> Option<(int, bool)> {
    match a {
        Some(a) => Some((a.index as int, a.succeeded)),
        None => None,
    }
}

/// The kind of an [`InstallStep`], with the manager it is about.
pub enum StepView {
    Installed,
    Run(int),
    Failed(int),
    Done(int),
    Unavailable,
}

/// The kind of `r`.
pub open spec fn step_view(r: &InstallStep) -> StepView {
    match r {
        InstallStep::Installed => StepView::Installed,
        InstallStep::Run { index, .. } => StepView::Run(*index as int),
        InstallStep::Failed { index, .. } => StepView::Failed(*index as int),
        InstallStep::Done { index } => StepView::Done(*index as int),
        InstallStep::Unavailable => StepView::Unavailable,
    }
}

/// The manager to try after the attempt `previous`: the first one when
/// there was none, else the next one.
pub open spec fn next_from(previous: Option<(int, bool)>) -> int {
    match previous {
        Some((i, _)) => i + 1,
        None => 0,
    }
}

/// What installing `p` with the managers `ms` does after the attempt
/// `previous`: nothing when it is installed already; done when the last
/// attempt succeeded; else the next manager's install command, or the error
/// that preparing it gave; unavailable once no manager is left.
pub open spec fn next_step(ms: Seq<PackageManagerView>, p: PackageView, installed: bool, previous: Option<(int, bool)>) -> StepView {
    if installed {
        StepView::Installed
    } else if previous matches Some((_, true)) {
        StepView::Done(previous->Some_0.0)
    } else {
        let from = next_from(previous);
        if 0 <= from < ms.len() {
            match install_command_of(ms[from], p) {
                Ok(_) => StepView::Run(from),
                Err(_) => StepView::Failed(from),
            }
        } else {
            StepView::Unavailable
        }
    }
}

/// The manager that installs `p`, when `ok[i]` says whether the install
/// command of manager `i` succeeds: the first from `i` on whose command can
/// be prepared and succeeds; `None` when there is none.
pub open spec fn first_installing(ms: Seq<PackageManagerView>, p: PackageView, ok: Seq<bool>, i: int) -> Option<int>
    decreases ms.len() - i,
{
    if i < 0 || i >= ms.len() {
        None
    } else if install_command_of(ms[i], p) is Ok && ok[i] {
        Some(i)
    } else {
        first_installing(ms, p, ok, i + 1)
    }
}

/// The manager that installs `p` when the steps of [`next_step`] are
/// followed from the attempt `previous`, each command run giving `ok[i]`:
/// `None` when the package turns out unavailable.
pub open spec fn follow_steps(ms: Seq<PackageManagerView>, p: PackageView, ok: Seq<bool>, previous: Option<(int, bool)>) -> Option<int>
    decreases ms.len() - next_from(previous),
{
    match next_step(ms, p, false, previous) {
        StepView::Done(i) => Some(i),
        StepView::Run(i) => follow_steps(ms, p, ok, Some((i, ok[i]))),
        StepView::Failed(i) => follow_steps(ms, p, ok, Some((i, false))),
        _ => None,
    }
}

/// Installing a package that is not installed tries its managers in order
/// and stops at the first whose install command can be prepared and runs
/// successfully: following the steps from the start ends with that manager,
/// or with the package unavailable when every manager fails.
pub proof fn law_install_stops_at_first_success(ms: Seq<PackageManagerView>, p: PackageView, ok: Seq<bool>, previous: Option<(int, bool)>)
    requires
        !(previous matches Some((_, true))),
        next_from(previous) >= 0,
    ensures
        follow_steps(ms, p, ok, previous) == first_installing(ms, p, ok, next_from(previous)),
    decreases ms.len() - next_from(previous),
{
    let from = next_from(previous);
    if 0 <= from < ms.len() {
        match install_command_of(ms[from], p) {
            Ok(_) => {
                if ok[from] {
                    assert(next_step(ms, p, false, Some((from, true))) == StepView::Done(from));
                    assert(follow_steps(ms, p, ok, Some((from, true))) == Some(from));
                } else {
                    law_install_stops_at_first_success(ms, p, ok, Some((from, false)));
                }
            },
            Err(_) => law_install_stops_at_first_success(ms, p, ok, Some((from, false))),
        }
    }
}

/// What deciding whether a package is installed needs next.
pub enum InstalledQuery {
    /// Ask the manager at `index` whether it has the package.
    AskManager { index: usize },
    /// Ask whether a program of the package's name is available.
    AskWhich,
    /// The package is installed, or not.
    Known { installed: bool },
}

/// The name of the install command slot.
pub open spec fn install_slot() -> Seq<char> {
    seq!['s', 'h', 'e', 'l', 'l', '_', 'i', 'n', 's', 't', 'a', 'l', 'l']
}

/// The name of the uninstall command slot.
pub open spec fn uninstall_slot() -> Seq<char> {
    seq!['s', 'h', 'e', 'l', 'l', '_', 'u', 'n', 'i', 'n', 's', 't', 'a', 'l', 'l']
}

/// The install command of `m` for package `p`.
pub open spec fn install_command_of(m: PackageManagerView, p: PackageView) -> Result<CommandLineView, PackageErrorView> {
    package_command(m, m.shell_install, install_slot(), alias_for(p.aliases, m.name, p.name))
}

/// The uninstall command of `m` for package `p`.
pub open spec fn uninstall_command_of(m: PackageManagerView, p: PackageView) -> Result<CommandLineView, PackageErrorView> {
    package_command(m, m.shell_uninstall, uninstall_slot(), alias_for(p.aliases, m.name, p.name))
}

/// What uninstalling a package does with one of its managers.
pub enum UninstallStep {
    /// The manager does not have the package: nothing to do.
    Skip,
    /// Run `line`, the manager's uninstall command; if it fails, the
    /// uninstall stops there.
    Run { line: CommandLine },
    /// The manager has the package but its uninstall command cannot be
    /// prepared: the uninstall stops with `error`.
    Failed { error: PackageError },
}

impl Package {
    /// The package's managers that are declared in `context`, in the
    /// package's order.
    pub fn declared_managers(&self, context: &Context) -> (r: Vec<PackageManager>)
        ensures
            managers_view(r@) == declared_of(self@.managers, manager_entries(context.managers)),
    {
        let ghost e = manager_entries(context.managers);
        let mut r: Vec<PackageManager> = Vec::new();
        let mut i: usize = 0;
        while i < self.managers.len()
            invariant
                i <= self.managers@.len(),
                e == manager_entries(context.managers),
                managers_view(r@) == declared_of(self@.managers.take(i as int), e),
            decreases self.managers@.len() - i,
        {
            assert(self@.managers.take(i + 1).drop_last() =~= self@.managers.take(i as int));
            assert(self@.managers.take(i + 1).last() == self.managers@[i as int]@);
            let ghost before = r@;
            match manager_index(&context.managers, &self.managers[i]) {
                Some(k) => {
                    let m = manager_at(&context.managers, k).duplicate();
                    r.push(m);
                    assert(managers_view(r@) =~= managers_view(before).push(m@));
                },
                None => {},
            }
            i = i + 1;
        }
        assert(self@.managers.take(self@.managers.len() as int) =~= self@.managers);
        r
    }

    /// Whether the package is installed: some manager has it, or a program
    /// of its name is available.
    pub fn is_installed(&self, has_answers: &Vec<bool>, which_answer: bool) -> (r: bool)
        ensures
            r == (has_answers@.contains(true) || which_answer),
    {
        let mut i: usize = 0;
        while i < has_answers.len()
            invariant
                i <= has_answers@.len(),
                forall|j: int| 0 <= j < i ==> !has_answers@[j],
            decreases has_answers@.len() - i,
        {
            if has_answers[i] {
                assert(has_answers@[i as int] == true);
                return true;
            }
            i = i + 1;
        }
        which_answer
    }

    /// What installing the package does next, given whether it is
    /// installed, its declared `managers`, and that the managers before
    /// `from` were tried: nothing when installed; else, while a manager is
    /// left, the install command of the manager at `from`, or the error
    /// that preparing it gave; else the package is unavailable.
    pub fn install_step(&self, managers: &Vec<PackageManager>, installed: bool, from: usize) -> (r: InstallStep)
        ensures
            installed ==> r is Installed,
            !installed && from < managers@.len() ==> match install_command_of(managers@[from as int]@, self@) {
                Ok(c) => r matches InstallStep::Run { index, line } && index == from && line@ == c,
                Err(e) => r matches InstallStep::Failed { index, error } && index == from && error@ == e,
            },
            !installed && from >= managers@.len() ==> r is Unavailable,
    {
        if installed {
            return InstallStep::Installed;
        }
        if from < managers.len() {
            proof {
                reveal_strlit("shell_install");
            }
            match managers[from].install_package(self) {
                Ok(line) => InstallStep::Run { index: from, line },
                Err(error) => InstallStep::Failed { index: from, error },
            }
        } else {
            InstallStep::Unavailable
        }
    }

    /// What installing the package does after the attempt `previous` (none
    /// at first), given whether it is installed and its declared `managers`:
    /// the step [`next_step`] names, with the install command to run or the
    /// error that preparing it gave.
    pub fn install_next(&self, managers: &Vec<PackageManager>, installed: bool, previous: Option<InstallAttempt>) -> (r: InstallStep)
        requires
            previous is Some ==> previous->Some_0.index < managers@.len(),
        ensures
            step_view(&r) == next_step(managers_view(managers@), self@, installed, attempt_view(previous)),
            r matches InstallStep::Run { index, line } ==> install_command_of(managers@[index as int]@, self@) == Ok::<CommandLineView, PackageErrorView>(line@),
            r matches InstallStep::Failed { index, error } ==> install_command_of(managers@[index as int]@, self@) == Err::<CommandLineView, PackageErrorView>(error@),
    {
        let ghost ms = managers_view(managers@);
        if installed {
            return InstallStep::Installed;
        }
        let from = match previous {
            Some(a) => {
                if a.succeeded {
                    return InstallStep::Done { index: a.index };
                }
                if a.index < managers.len() {
                    a.index + 1
                } else {
                    managers.len()
                }
            },
            None => 0,
        };
        let r = self.install_step(managers, false, from);
        proof {
            if from < managers@.len() {
                assert(ms[from as int] == managers@[from as int]@);
            }
        }
        r
    }

    /// What deciding whether the package is installed needs next, given
    /// the answers of the first of its `count` declared managers, in order,
    /// and whether a program of its name is available, once asked: no
    /// manager is asked after one that has the package, and the program is
    /// looked for only when no manager has it.
    pub fn installed_query(&self, count: usize, answers: &Vec<bool>, which: Option<bool>) -> (r: InstalledQuery)
        requires
            answers@.len() <= count,
        ensures
            answers@.contains(true) ==> (r matches InstalledQuery::Known { installed } && installed),
            !answers@.contains(true) && answers@.len() < count ==> (r matches InstalledQuery::AskManager { index }
                && index == answers@.len()),
            !answers@.contains(true) && answers@.len() == count ==> match which {
                None => r is AskWhich,
                Some(w) => r matches InstalledQuery::Known { installed } && installed == w,
            },
    {
        if self.is_installed(answers, false) {
            InstalledQuery::Known { installed: true }
        } else if answers.len() < count {
            InstalledQuery::AskManager { index: answers.len() }
        } else {
            match which {
                None => InstalledQuery::AskWhich,
                Some(w) => InstalledQuery::Known { installed: w },
            }
        }
    }

    /// What uninstalling the package does with `manager`, given whether
    /// the manager has it (`has_it`): nothing when it does not; else its uninstall
    /// command, or the error that preparing it gave. The managers are taken
    /// one by one, in order, each uninstalling before the next is asked.
    pub fn uninstall_step(&self, manager: &PackageManager, has_it: bool) -> (r: UninstallStep)
        ensures
            !has_it ==> r is Skip,
            has_it ==> match uninstall_command_of(manager@, self@) {
                Ok(c) => r matches UninstallStep::Run { line } && line@ == c,
                Err(e) => r matches UninstallStep::Failed { error } && error@ == e,
            },
    {
        if !has_it {
            return UninstallStep::Skip;
        }
        proof {
            reveal_strlit("shell_uninstall");
        }
        match manager.uninstall_package(self) {
            Ok(line) => UninstallStep::Run { line },
            Err(error) => UninstallStep::Failed { error },
        }
    }
}


impl PackageManager {
    /// What requiring the manager does, given whether it is available:
    /// nothing when it is, its bootstrap command otherwise.
    pub fn require(&self, available: bool) -> (r: Result<Option<CommandLine>, PackageError>)
        ensures
            available ==> r matches Ok(None),
            !available ==> match manager_command(self@, self@.shell_bootstrap,
                seq!['s', 'h', 'e', 'l', 'l', '_', 'b', 'o', 'o', 't', 's', 't', 'r', 'a', 'p']) {
                Ok(c) => r matches Ok(Some(x)) && x@ == c,
                Err(e) => r matches Err(x) && x@ == e,
            },
    {
        if available {
            Ok(None)
        } else {
            match self.bootstrap() {
                Ok(c) => Ok(Some(c)),
                Err(e) => Err(e),
            }
        }
    }
}

/// A program is looked for with `where` on Windows and `which` elsewhere,
/// its name being the only argument; a manager's install and uninstall
/// commands are the slots `shell_install` and `shell_uninstall`.
pub proof fn law_which_and_slots(name: Seq<char>, os: Seq<char>)
    ensures
        which_command(name, seq!['w', 'i', 'n', 'd', 'o', 'w', 's']) == (CommandLineView {
            program: seq!['w', 'h', 'e', 'r', 'e'],
            args: seq![name],
        }),
        os != seq!['w', 'i', 'n', 'd', 'o', 'w', 's'] ==> which_command(name, os) == (CommandLineView {
            program: seq!['w', 'h', 'i', 'c', 'h'],
            args: seq![name],
        }),
        install_slot() == seq!['s', 'h', 'e', 'l', 'l', '_', 'i', 'n', 's', 't', 'a', 'l', 'l'],
        uninstall_slot() == seq!['s', 'h', 'e', 'l', 'l', '_', 'u', 'n', 'i', 'n', 's', 't', 'a', 'l', 'l'],
{
}

/// A package is known to a manager by the alias of the first entry of
/// `aliases` for that manager, and by its own name when no entry is for it.
pub proof fn law_alias_is_first_entry_for_manager(aliases: Seq<(Seq<char>, Seq<char>)>, manager: Seq<char>, name: Seq<char>, k: int)
    ensures
        (forall|j: int| 0 <= j < aliases.len() ==> #[trigger] aliases[j].0 != manager) ==> alias_for(aliases, manager, name) == name,
        0 <= k < aliases.len() && aliases[k].0 == manager && (forall|j: int| 0 <= j < k ==> #[trigger] aliases[j].0 != manager)
            ==> alias_for(aliases, manager, name) == aliases[k].1,
    decreases aliases.len(),
{
    if aliases.len() > 0 && aliases[0].0 != manager {
        let rest = aliases.drop_first();
        law_alias_is_first_entry_for_manager(rest, manager, name, k - 1);
        if forall|j: int| 0 <= j < aliases.len() ==> #[trigger] aliases[j].0 != manager {
            assert forall|j: int| 0 <= j < rest.len() implies #[trigger] rest[j].0 != manager by {
                assert(rest[j] == aliases[j + 1]);
                assert(aliases[j + 1].0 != manager);
            }
        }
        if 0 <= k < aliases.len() && aliases[k].0 == manager && (forall|j: int| 0 <= j < k ==> #[trigger] aliases[j].0 != manager) {
            assert(k > 0);
            assert forall|j: int| 0 <= j < k - 1 implies #[trigger] rest[j].0 != manager by {
                assert(rest[j] == aliases[j + 1]);
                assert(aliases[j + 1].0 != manager);
            }
            assert(rest[k - 1] == aliases[k]);
        }
    }
}


/// A manager without an install (or uninstall) command cannot install (or
/// uninstall) anything: it fails as not implemented, naming itself and the
/// slot `shell_install` (or `shell_uninstall`). A command text without
/// references runs as it is written, in the command's shell after the run
/// flag of its kind.
pub proof fn law_package_command_slots(m: PackageManagerView, p: PackageView)
    ensures
        m.shell_install is None ==> install_command_of(m, p) == Err::<CommandLineView, PackageErrorView>(
            PackageErrorView::NotImplemented { manager: m.name, command: install_slot() }),
        m.shell_uninstall is None ==> uninstall_command_of(m, p) == Err::<CommandLineView, PackageErrorView>(
            PackageErrorView::NotImplemented { manager: m.name, command: uninstall_slot() }),
        match m.shell_install {
            Some(c) => (forall|j: int| 0 <= j < c.command.len() ==> #[trigger] reference_end(c.command, j) is None)
                ==> install_command_of(m, p) == Ok::<CommandLineView, PackageErrorView>(CommandLineView {
                    program: c.shell.command,
                    args: seq![run_flag(c.shell.kind), c.command],
                }),
            None => true,
        },
{
    if let Some(c) = m.shell_install {
        if forall|j: int| 0 <= j < c.command.len() ==> #[trigger] reference_end(c.command, j) is None {
            law_text_without_references_is_kept(|inner: Seq<char>| alias_value(alias_for(p.aliases, m.name, p.name), inner), c.command);
        }
    }
}

} // verus!
