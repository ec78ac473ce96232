//! The package managers known by name, and the command lines that install,
//! remove, find and bootstrap packages with them.
use vstd::prelude::*;
use crate::text::{owned, push_str, is_text, copy_string};
use crate::specs::shell::{Shell, CommandLine, CommandLineView, shell_of, run_flag, default_shell_program};
use crate::specs::shell::command::{Outcome, call_bool, exited_successfully};
use crate::specs::package::{which_has, which_command};
use crate::shell::{Pipe, PipeView, remote_script_pipe};

verus! {

/// A package manager known by name.
#[derive(PartialEq, Eq, Structural, Copy, Clone, Debug)]
pub enum PackageManager {
    Apt,
    AptGet,
    Brew,
    Cargo,
    Choco,
    Pkg,
    Yum,
}

/// The program of manager `m`.
pub open spec fn manager_program(m: PackageManager) -> Seq<char> {
    match m {
        PackageManager::Apt => seq!['a', 'p', 't'],
        PackageManager::AptGet => seq!['a', 'p', 't', '-', 'g', 'e', 't'],
        PackageManager::Brew => seq!['b', 'r', 'e', 'w'],
        PackageManager::Cargo => seq!['c', 'a', 'r', 'g', 'o'],
        PackageManager::Choco => seq!['c', 'h', 'o', 'c', 'o'],
        PackageManager::Pkg => seq!['p', 'k', 'g'],
        PackageManager::Yum => seq!['y', 'u', 'm'],
    }
}

/// Managers that change the system and are run through `sudo`.
pub open spec fn runs_with_sudo(m: PackageManager) -> bool {
    m == PackageManager::Apt || m == PackageManager::AptGet || m == PackageManager::Pkg || m == PackageManager::Yum
}

pub open spec fn w_sudo() -> Seq<char> { seq!['s', 'u', 'd', 'o'] }
pub open spec fn w_install() -> Seq<char> { seq!['i', 'n', 's', 't', 'a', 'l', 'l'] }
pub open spec fn w_uninstall() -> Seq<char> { seq!['u', 'n', 'i', 'n', 's', 't', 'a', 'l', 'l'] }
pub open spec fn w_remove() -> Seq<char> { seq!['r', 'e', 'm', 'o', 'v', 'e'] }
pub open spec fn w_yes() -> Seq<char> { seq!['-', 'y'] }

/// The command line that runs the manager `m` with `args`: through `sudo`
/// for the managers that need it.
pub open spec fn manager_line(m: PackageManager, args: Seq<Seq<char>>) -> CommandLineView {
    if runs_with_sudo(m) {
        CommandLineView { program: w_sudo(), args: seq![manager_program(m)] + args }
    } else {
        CommandLineView { program: manager_program(m), args }
    }
}

/// The command line that installs `package` with `m`: `install -y <package>`
/// (`install <package>` for cargo).
pub open spec fn install_line(m: PackageManager, package: Seq<char>) -> CommandLineView {
    if m == PackageManager::Cargo {
        manager_line(m, seq![w_install(), package])
    } else {
        manager_line(m, seq![w_install(), w_yes(), package])
    }
}

/// The command line that removes `package` with `m`: `remove -y <package>`
/// through `sudo`, `uninstall <package>` for cargo, `uninstall -y <package>`
/// otherwise.
pub open spec fn uninstall_line(m: PackageManager, package: Seq<char>) -> CommandLineView {
    if runs_with_sudo(m) {
        manager_line(m, seq![w_remove(), w_yes(), package])
    } else if m == PackageManager::Cargo {
        manager_line(m, seq![w_uninstall(), package])
    } else {
        manager_line(m, seq![w_uninstall(), w_yes(), package])
    }
}

/// The text of the shell command that lists what cargo installed and looks
/// for `package` in it.
pub open spec fn cargo_list_command(package: Seq<char>, os: Seq<char>) -> Seq<char> {
    if os == seq!['w', 'i', 'n', 'd', 'o', 'w', 's'] {
        seq!['c', 'a', 'r', 'g', 'o', ' ', 'i', 'n', 's', 't', 'a', 'l', 'l', ' ', '-', '-', 'l', 'i', 's', 't', ' ', '|', ' ',
            'f', 'i', 'n', 'd', 's', 't', 'r', ' ', '/', 'b', ' ', '/', 'l', ' ', '/', 'c', ':'] + package
    } else {
        seq!['c', 'a', 'r', 'g', 'o', ' ', 'i', 'n', 's', 't', 'a', 'l', 'l', ' ', '-', '-', 'l', 'i', 's', 't', ' ', '|', ' ',
            'g', 'r', 'e', 'p', ' ', '\'', '^'] + package + seq![' ', 'v', '\'']
    }
}

/// The command line that tells whether `package` is installed with `m` on
/// the operating system `os`; `None` for managers that cannot tell, for
/// which the answer is `false`.
pub open spec fn has_line(m: PackageManager, package: Seq<char>, os: Seq<char>) -> Option<CommandLineView> {
    match m {
        PackageManager::Apt | PackageManager::AptGet => Some(CommandLineView {
            program: seq!['d', 'p', 'k', 'g'],
            args: seq![seq!['-', 'l'], package],
        }),
        PackageManager::Brew => Some(CommandLineView { program: manager_program(m), args: seq![seq!['l', 'i', 's', 't'], package] }),
        PackageManager::Cargo => {
            let sh = shell_of(default_shell_program(os));
            Some(CommandLineView { program: sh.command, args: seq![run_flag(sh.kind), cargo_list_command(package, os)] })
        },
        PackageManager::Pkg => Some(CommandLineView { program: manager_program(m), args: seq![seq!['i', 'n', 'f', 'o'], package] }),
        _ => None,
    }
}

/// Why a package manager cannot do what was asked.
#[derive(Debug)]
pub enum ManagerError {
    /// The manager cannot be bootstrapped.
    BootstrapUnsupported(PackageManager),
    /// No manager is given for the package.
    Unavailable { package: String },
}

/// The script that bootstraps manager `m`: the Homebrew installer run in
/// `bash`, or rustup's installer run in `sh`.
pub open spec fn bootstrap_pipe(m: PackageManager) -> Option<PipeView> {
    match m {
        PackageManager::Brew => Some(remote_script_pipe(shell_of(seq!['b', 'a', 's', 'h']), seq![
            seq!['-', 'f', 's', 'S', 'L'],
            brew_installer_url(),
        ])),
        PackageManager::Cargo => Some(remote_script_pipe(shell_of(seq!['s', 'h']), seq![
            seq!['-', '-', 'p', 'r', 'o', 't', 'o'],
            seq!['\'', '=', 'h', 't', 't', 'p', 's', '\''],
            seq!['-', '-', 't', 'l', 's', 'v', '1', '.', '2'],
            seq!['-', 's', 'S', 'f'],
            rustup_url(),
        ])),
        _ => None,
    }
}

/// Address of the Homebrew installer.
pub open spec fn brew_installer_url() -> Seq<char> {
    "https://raw.githubusercontent.com/Homebrew/install/HEAD/install.sh"@
}

/// Address of rustup's installer.
pub open spec fn rustup_url() -> Seq<char> {
    "https://sh.rustup.rs"@
}

fn words(a: &str, b: &str) -> (r: Vec<String>)
    ensures
        r@.map_values(|s: String| s@) == seq![a@, b@],
{
    let mut r: Vec<String> = Vec::new();
    r.push(owned(a));
    r.push(owned(b));
    assert(r@.map_values(|s: String| s@) =~= seq![a@, b@]);
    r
}

fn words3(a: &str, b: &str, c: &str) -> (r: Vec<String>)
    ensures
        r@.map_values(|s: String| s@) == seq![a@, b@, c@],
{
    let mut r: Vec<String> = Vec::new();
    r.push(owned(a));
    r.push(owned(b));
    r.push(owned(c));
    assert(r@.map_values(|s: String| s@) =~= seq![a@, b@, c@]);
    r
}

impl PackageManager {
    /// The manager's program.
    pub fn name(self) -> (r: String)
        ensures
            r@ == manager_program(self),
    {
        proof {
            reveal_strlit("apt");
            reveal_strlit("apt-get");
            reveal_strlit("brew");
            reveal_strlit("cargo");
            reveal_strlit("choco");
            reveal_strlit("pkg");
            reveal_strlit("yum");
            assert("apt"@ =~= seq!['a', 'p', 't']);
            assert("apt-get"@ =~= seq!['a', 'p', 't', '-', 'g', 'e', 't']);
            assert("brew"@ =~= seq!['b', 'r', 'e', 'w']);
            assert("cargo"@ =~= seq!['c', 'a', 'r', 'g', 'o']);
            assert("choco"@ =~= seq!['c', 'h', 'o', 'c', 'o']);
            assert("pkg"@ =~= seq!['p', 'k', 'g']);
            assert("yum"@ =~= seq!['y', 'u', 'm']);
        }
        match self {
            PackageManager::Apt => owned("apt"),
            PackageManager::AptGet => owned("apt-get"),
            PackageManager::Brew => owned("brew"),
            PackageManager::Cargo => owned("cargo"),
            PackageManager::Choco => owned("choco"),
            PackageManager::Pkg => owned("pkg"),
            PackageManager::Yum => owned("yum"),
        }
    }

    /// The command line that runs the manager with `args`.
    fn line(self, args: Vec<String>) -> (r: CommandLine)
        ensures
            r@ == manager_line(self, args@.map_values(|s: String| s@)),
    {
        proof {
            reveal_strlit("sudo");
            assert("sudo"@ =~= w_sudo());
        }
        match self {
            PackageManager::Apt | PackageManager::AptGet | PackageManager::Pkg | PackageManager::Yum => {
                let mut all: Vec<String> = Vec::new();
                all.push(self.name());
                let ghost first = all@;
                let mut rest = args;
                let ghost tail = rest@;
                all.append(&mut rest);
                assert(all@.map_values(|s: String| s@) =~= seq![manager_program(self)] + tail.map_values(|s: String| s@));
                CommandLine { program: owned("sudo"), args: all }
            },
            _ => CommandLine { program: self.name(), args },
        }
    }

    /// The command line that installs `package`.
    pub fn install(self, package: &str) -> (r: CommandLine)
        ensures
            r@ == install_line(self, package@),
    {
        proof {
            reveal_strlit("install");
            assert("install"@ =~= w_install());
            reveal_strlit("-y");
            assert("-y"@ =~= w_yes());
        }
        match self {
            PackageManager::Cargo => self.line(words("install", package)),
            _ => self.line(words3("install", "-y", package)),
        }
    }

    /// The command line that removes `package`.
    pub fn uninstall(self, package: &str) -> (r: CommandLine)
        ensures
            r@ == uninstall_line(self, package@),
    {
        proof {
            reveal_strlit("uninstall");
            assert("uninstall"@ =~= w_uninstall());
            reveal_strlit("remove");
            assert("remove"@ =~= w_remove());
            reveal_strlit("-y");
            assert("-y"@ =~= w_yes());
        }
        match self {
            PackageManager::Apt | PackageManager::AptGet | PackageManager::Pkg | PackageManager::Yum => {
                self.line(words3("remove", "-y", package))
            },
            PackageManager::Cargo => self.line(words("uninstall", package)),
            _ => self.line(words3("uninstall", "-y", package)),
        }
    }

    /// The command line that tells whether `package` is installed, on the
    /// operating system `os`; `None` when the manager cannot tell.
    pub fn has(self, package: &str, os: &str) -> (r: Option<CommandLine>)
        ensures
            match r {
                Some(c) => has_line(self, package@, os@) == Some(c@),
                None => has_line(self, package@, os@) is None,
            },
    {
        proof {
            reveal_strlit("dpkg");
            assert("dpkg"@ =~= seq!['d', 'p', 'k', 'g']);
            reveal_strlit("-l");
            assert("-l"@ =~= seq!['-', 'l']);
            reveal_strlit("list");
            assert("list"@ =~= seq!['l', 'i', 's', 't']);
            reveal_strlit("info");
            assert("info"@ =~= seq!['i', 'n', 'f', 'o']);
        }
        match self {
            PackageManager::Apt | PackageManager::AptGet => Some(CommandLine { program: owned("dpkg"), args: words("-l", package) }),
            PackageManager::Brew => Some(CommandLine { program: self.name(), args: words("list", package) }),
            PackageManager::Cargo => {
                let command = cargo_list(package, os);
                Some(Shell::for_os(os).exec(command.as_str()))
            },
            PackageManager::Pkg => Some(CommandLine { program: self.name(), args: words("info", package) }),
            _ => None,
        }
    }

    /// The script that installs the manager itself.
    pub fn bootstrap(self) -> (r: Result<Pipe, ManagerError>)
        ensures
            match bootstrap_pipe(self) {
                Some(p) => r matches Ok(q) && q@ == p,
                None => r matches Err(ManagerError::BootstrapUnsupported(m)) && m == self,
            },
    {
        proof {
            reveal_strlit("bash");
            assert("bash"@ =~= seq!['b', 'a', 's', 'h']);
            reveal_strlit("sh");
            assert("sh"@ =~= seq!['s', 'h']);
            reveal_strlit("-fsSL");
            assert("-fsSL"@ =~= seq!['-', 'f', 's', 'S', 'L']);
            reveal_strlit("--proto");
            assert("--proto"@ =~= seq!['-', '-', 'p', 'r', 'o', 't', 'o']);
            reveal_strlit("'=https'");
            assert("'=https'"@ =~= seq!['\'', '=', 'h', 't', 't', 'p', 's', '\'']);
            reveal_strlit("--tlsv1.2");
            assert("--tlsv1.2"@ =~= seq!['-', '-', 't', 'l', 's', 'v', '1', '.', '2']);
            reveal_strlit("-sSf");
            assert("-sSf"@ =~= seq!['-', 's', 'S', 'f']);
        }
        match self {
            PackageManager::Brew => {
                let args = words("-fsSL", "https://raw.githubusercontent.com/Homebrew/install/HEAD/install.sh");
                assert(args@.map_values(|s: String| s@) =~= seq![seq!['-', 'f', 's', 'S', 'L'], brew_installer_url()]);
                let p = Shell::from(owned("bash")).remote_script(&args);
                assert(p@ == bootstrap_pipe(self).unwrap());
                Ok(p)
            },
            PackageManager::Cargo => {
                let mut args = words3("--proto", "'=https'", "--tlsv1.2");
                let mut more = words("-sSf", "https://sh.rustup.rs");
                let ghost a = args@;
                let ghost b = more@;
                args.append(&mut more);
                assert(args@.map_values(|s: String| s@) =~= a.map_values(|s: String| s@) + b.map_values(|s: String| s@));
                assert(args@.map_values(|s: String| s@) =~= seq![
                    seq!['-', '-', 'p', 'r', 'o', 't', 'o'],
                    seq!['\'', '=', 'h', 't', 't', 'p', 's', '\''],
                    seq!['-', '-', 't', 'l', 's', 'v', '1', '.', '2'],
                    seq!['-', 's', 'S', 'f'],
                    rustup_url(),
                ]);
                let p = Shell::from(owned("sh")).remote_script(&args);
                assert(p@ == bootstrap_pipe(self).unwrap());
                Ok(p)
            },
            _ => Err(ManagerError::BootstrapUnsupported(self)),
        }
    }

    /// What requiring the manager does, given whether it is available:
    /// nothing when it is, its bootstrap script otherwise.
    pub fn require(self, available: bool) -> (r: Result<Option<Pipe>, ManagerError>)
        ensures
            available ==> r matches Ok(None),
            !available ==> match bootstrap_pipe(self) {
                Some(p) => r matches Ok(Some(q)) && q@ == p,
                None => r matches Err(ManagerError::BootstrapUnsupported(m)) && m == self,
            },
    {
        if available {
            Ok(None)
        } else {
            match self.bootstrap() {
                Ok(p) => Ok(Some(p)),
                Err(e) => Err(e),
            }
        }
    }

    /// The command line that tells whether the manager's program is
    /// available on the operating system `os`.
    pub fn is_available(self, os: &str) -> (r: CommandLine)
        ensures
            r@ == which_command(manager_program(self), os@),
    {
        let name = self.name();
        which_has(name.as_str(), os)
    }
}

/// Builds [`cargo_list_command`].
fn cargo_list(package: &str, os: &str) -> (r: String)
    ensures
        r@ == cargo_list_command(package@, os@),
{
    proof {
        reveal_strlit("windows");
        assert("windows"@ =~= seq!['w', 'i', 'n', 'd', 'o', 'w', 's']);
        reveal_strlit("cargo install --list | findstr /b /l /c:");
        assert("cargo install --list | findstr /b /l /c:"@ =~= seq!['c', 'a', 'r', 'g', 'o', ' ', 'i', 'n', 's', 't', 'a', 'l', 'l', ' ', '-', '-', 'l', 'i', 's', 't', ' ', '|', ' ',
            'f', 'i', 'n', 'd', 's', 't', 'r', ' ', '/', 'b', ' ', '/', 'l', ' ', '/', 'c', ':']);
        reveal_strlit("cargo install --list | grep '^");
        assert("cargo install --list | grep '^"@ =~= seq!['c', 'a', 'r', 'g', 'o', ' ', 'i', 'n', 's', 't', 'a', 'l', 'l', ' ', '-', '-', 'l', 'i', 's', 't', ' ', '|', ' ',
            'g', 'r', 'e', 'p', ' ', '\'', '^']);
        reveal_strlit(" v'");
        assert(" v'"@ =~= seq![' ', 'v', '\'']);
    }
    if is_text(&owned(os), "windows") {
        let mut s = owned("cargo install --list | findstr /b /l /c:");
        push_str(&mut s, package);
        s
    } else {
        let mut s = owned("cargo install --list | grep '^");
        push_str(&mut s, package);
        push_str(&mut s, " v'");
        s
    }
}

/// The answer of a command run to tell whether a package is installed: its
/// success, and `false` when it could not be started.
pub fn has_answer(outcome: &Outcome) -> (r: bool)
    ensures
        r == exited_successfully(*outcome),
{
    match call_bool(outcome) {
        Ok(b) => b,
        Err(_) => false,
    }
}

/// A package and the managers that provide it.
pub struct Package {
    /// Name of the package.
    pub name: String,
    /// Managers that provide the package, in order of preference.
    pub managers: Vec<PackageManager>,
    /// Names of the package for particular managers.
    pub aliases: Vec<(PackageManager, String)>,
}

/// The name listed first for `m` in `aliases`, or `default`.
pub open spec fn alias_of(aliases: Seq<(PackageManager, String)>, m: PackageManager, default: Seq<char>) -> Seq<char>
    decreases aliases.len(),
{
    if aliases.len() == 0 {
        default
    } else if aliases[0].0 == m {
        aliases[0].1@
    } else {
        alias_of(aliases.drop_first(), m, default)
    }
}

/// The uninstall commands for the managers of `ms` whose answer in
/// `answers` is `true`, in order.
pub open spec fn uninstall_lines(ms: Seq<PackageManager>, answers: Seq<bool>, p: Package) -> Seq<CommandLineView>
    decreases ms.len(),
{
    if ms.len() == 0 {
        Seq::empty()
    } else {
        let rest = uninstall_lines(ms.drop_last(), answers.drop_last(), p);
        if answers.last() {
            rest.push(uninstall_line(ms.last(), alias_of(p.aliases@, ms.last(), p.name@)))
        } else {
            rest
        }
    }
}

impl Package {
    /// The package's name for `manager`: its alias there, or its name.
    pub fn get_name(&self, manager: PackageManager) -> (r: String)
        ensures
            r@ == alias_of(self.aliases@, manager, self.name@),
    {
        let mut i: usize = 0;
        assert(self.aliases@.skip(0) =~= self.aliases@);
        while i < self.aliases.len()
            invariant
                i <= self.aliases@.len(),
                alias_of(self.aliases@, manager, self.name@) == alias_of(self.aliases@.skip(i as int), manager, self.name@),
            decreases self.aliases@.len() - i,
        {
            assert(self.aliases@.skip(i as int)[0] == self.aliases@[i as int]);
            assert(self.aliases@.skip(i as int).drop_first() =~= self.aliases@.skip(i + 1));
            if self.aliases[i].0 == manager {
                return copy_string(&self.aliases[i].1);
            }
            i = i + 1;
        }
        copy_string(&self.name)
    }

    /// Each manager with the package's name for it, in order.
    pub fn manager_names(&self) -> (r: Vec<(PackageManager, String)>)
        ensures
            r@.len() == self.managers@.len(),
            forall|i: int| 0 <= i < r@.len() ==> #[trigger] r@[i].0 == self.managers@[i]
                && r@[i].1@ == alias_of(self.aliases@, self.managers@[i], self.name@),
    {
        let mut r: Vec<(PackageManager, String)> = Vec::new();
        let mut i: usize = 0;
        while i < self.managers.len()
            invariant
                i <= self.managers@.len(),
                r@.len() == i,
                forall|j: int| 0 <= j < i ==> #[trigger] r@[j].0 == self.managers@[j]
                    && r@[j].1@ == alias_of(self.aliases@, self.managers@[j], self.name@),
            decreases self.managers@.len() - i,
        {
            let m = self.managers[i];
            r.push((m, self.get_name(m)));
            i = i + 1;
        }
        r
    }

    /// Whether the package is installed: a program of its name is
    /// available, or some manager has it.
    pub fn is_installed(&self, which_answer: bool, answers: &Vec<bool>) -> (r: bool)
        ensures
            r == (which_answer || answers@.contains(true)),
    {
        if which_answer {
            return true;
        }
        let mut i: usize = 0;
        while i < answers.len()
            invariant
                i <= answers@.len(),
                forall|j: int| 0 <= j < i ==> !answers@[j],
            decreases answers@.len() - i,
        {
            if answers[i] {
                assert(answers@[i as int]);
                return true;
            }
            i = i + 1;
        }
        false
    }

    /// What installing does: nothing when installed, else the install
    /// command of the first manager, and an error when there is none.
    pub fn install(&self, installed: bool) -> (r: Result<Option<CommandLine>, ManagerError>)
        ensures
            installed ==> r matches Ok(None),
            !installed && self.managers@.len() > 0 ==> (r matches Ok(Some(c))
                && c@ == install_line(self.managers@[0], alias_of(self.aliases@, self.managers@[0], self.name@))),
            !installed && self.managers@.len() == 0 ==> (r matches Err(ManagerError::Unavailable { package })
                && package@ == self.name@),
    {
        if installed {
            Ok(None)
        } else if self.managers.len() > 0 {
            let m = self.managers[0];
            let name = self.get_name(m);
            Ok(Some(m.install(name.as_str())))
        } else {
            Err(ManagerError::Unavailable { package: copy_string(&self.name) })
        }
    }

    /// The uninstall commands of the managers whose answer in `answers` is
    /// `true`, in order.
    pub fn uninstall(&self, answers: &Vec<bool>) -> (r: Vec<CommandLine>)
        requires
            answers@.len() == self.managers@.len(),
        ensures
            r@.map_values(|c: CommandLine| c@) == uninstall_lines(self.managers@, answers@, *self),
    {
        let mut out: Vec<CommandLine> = Vec::new();
        let mut i: usize = 0;
        assert(out@.map_values(|c: CommandLine| c@) =~= Seq::<CommandLineView>::empty());
        assert(self.managers@.take(0) =~= Seq::<PackageManager>::empty());
        while i < self.managers.len()
            invariant
                i <= self.managers@.len(),
                answers@.len() == self.managers@.len(),
                out@.map_values(|c: CommandLine| c@) == uninstall_lines(self.managers@.take(i as int), answers@.take(i as int), *self),
            decreases self.managers@.len() - i,
        {
            assert(self.managers@.take(i + 1).drop_last() =~= self.managers@.take(i as int));
            assert(answers@.take(i + 1).drop_last() =~= answers@.take(i as int));
            assert(self.managers@.take(i + 1).last() == self.managers@[i as int]);
            assert(answers@.take(i + 1).last() == answers@[i as int]);
            if answers[i] {
                let m = self.managers[i];
                let name = self.get_name(m);
                let line = m.uninstall(name.as_str());
                let ghost before = out@;
                out.push(line);
                assert(out@.map_values(|c: CommandLine| c@) =~= before.map_values(|c: CommandLine| c@).push(line@));
            }
            i = i + 1;
        }
        assert(self.managers@.take(self.managers@.len() as int) =~= self.managers@);
        assert(answers@.take(answers@.len() as int) =~= answers@);
        out
    }
}

/// Each manager is run by the program of its name: `apt`, `apt-get`,
/// `brew`, `cargo`, `choco`, `pkg` and `yum`.
pub proof fn law_manager_programs()
    ensures
        manager_program(PackageManager::Apt) == seq!['a', 'p', 't'],
        manager_program(PackageManager::AptGet) == seq!['a', 'p', 't', '-', 'g', 'e', 't'],
        manager_program(PackageManager::Brew) == seq!['b', 'r', 'e', 'w'],
        manager_program(PackageManager::Cargo) == seq!['c', 'a', 'r', 'g', 'o'],
        manager_program(PackageManager::Choco) == seq!['c', 'h', 'o', 'c', 'o'],
        manager_program(PackageManager::Pkg) == seq!['p', 'k', 'g'],
        manager_program(PackageManager::Yum) == seq!['y', 'u', 'm'],
{
}

/// Installing runs `sudo <manager> install -y <package>` for apt, apt-get,
/// pkg and yum, `cargo install <package>` for cargo, and
/// `<manager> install -y <package>` for brew and choco; removing runs
/// `sudo <manager> remove -y <package>`, `cargo uninstall <package>` and
/// `<manager> uninstall -y <package>` for the same groups. The package is
/// always the last argument.
pub proof fn law_install_and_remove_lines(m: PackageManager, package: Seq<char>)
    ensures
        (m == PackageManager::Apt || m == PackageManager::AptGet || m == PackageManager::Pkg || m == PackageManager::Yum) ==> {
            &&& install_line(m, package) == (CommandLineView {
                program: seq!['s', 'u', 'd', 'o'],
                args: seq![manager_program(m), seq!['i', 'n', 's', 't', 'a', 'l', 'l'], seq!['-', 'y'], package],
            })
            &&& uninstall_line(m, package) == (CommandLineView {
                program: seq!['s', 'u', 'd', 'o'],
                args: seq![manager_program(m), seq!['r', 'e', 'm', 'o', 'v', 'e'], seq!['-', 'y'], package],
            })
        },
        m == PackageManager::Cargo ==> {
            &&& install_line(m, package) == (CommandLineView {
                program: seq!['c', 'a', 'r', 'g', 'o'],
                args: seq![seq!['i', 'n', 's', 't', 'a', 'l', 'l'], package],
            })
            &&& uninstall_line(m, package) == (CommandLineView {
                program: seq!['c', 'a', 'r', 'g', 'o'],
                args: seq![seq!['u', 'n', 'i', 'n', 's', 't', 'a', 'l', 'l'], package],
            })
        },
        (m == PackageManager::Brew || m == PackageManager::Choco) ==> {
            &&& install_line(m, package) == (CommandLineView {
                program: manager_program(m),
                args: seq![seq!['i', 'n', 's', 't', 'a', 'l', 'l'], seq!['-', 'y'], package],
            })
            &&& uninstall_line(m, package) == (CommandLineView {
                program: manager_program(m),
                args: seq![seq!['u', 'n', 'i', 'n', 's', 't', 'a', 'l', 'l'], seq!['-', 'y'], package],
            })
        },
        install_line(m, package).args.last() == package,
        uninstall_line(m, package).args.last() == package,
{
    assert((seq![manager_program(m)] + seq![w_install(), w_yes(), package]) =~= seq![manager_program(m), w_install(), w_yes(), package]);
    assert((seq![manager_program(m)] + seq![w_remove(), w_yes(), package]) =~= seq![manager_program(m), w_remove(), w_yes(), package]);
}

/// Whether a package is installed is asked with `dpkg -l <package>` for
/// apt and apt-get, `brew list <package>` for brew and `pkg info <package>`
/// for pkg; for cargo, the system's default shell runs, on every system
/// but Windows, `cargo install --list | grep '^<package> v'` after the run
/// flag of its kind; choco and yum cannot tell.
pub proof fn law_has_lines(m: PackageManager, package: Seq<char>, os: Seq<char>)
    ensures
        (m == PackageManager::Apt || m == PackageManager::AptGet) ==> has_line(m, package, os) == Some(CommandLineView {
            program: seq!['d', 'p', 'k', 'g'],
            args: seq![seq!['-', 'l'], package],
        }),
        has_line(PackageManager::Brew, package, os) == Some(CommandLineView {
            program: seq!['b', 'r', 'e', 'w'],
            args: seq![seq!['l', 'i', 's', 't'], package],
        }),
        has_line(PackageManager::Pkg, package, os) == Some(CommandLineView {
            program: seq!['p', 'k', 'g'],
            args: seq![seq!['i', 'n', 'f', 'o'], package],
        }),
        has_line(PackageManager::Choco, package, os) is None,
        has_line(PackageManager::Yum, package, os) is None,
        os != seq!['w', 'i', 'n', 'd', 'o', 'w', 's'] ==> (has_line(PackageManager::Cargo, package, os) matches Some(c)
            && c.program == default_shell_program(os)
            && c.args == seq![run_flag(shell_of(default_shell_program(os)).kind), seq!['c', 'a', 'r', 'g', 'o', ' ', 'i', 'n', 's', 't', 'a', 'l', 'l', ' ', '-', '-',
                'l', 'i', 's', 't', ' ', '|', ' ', 'g', 'r', 'e', 'p', ' ', '\'', '^'] + package + seq![' ', 'v', '\'']]),
{
}

/// A package is known to a manager by the alias of the first entry of
/// `aliases` for that manager, and by its own name when no entry is for it.
pub proof fn law_units_alias_is_first_entry(aliases: Seq<(PackageManager, String)>, m: PackageManager, name: Seq<char>, k: int)
    ensures
        (forall|j: int| 0 <= j < aliases.len() ==> #[trigger] aliases[j].0 != m) ==> alias_of(aliases, m, name) == name,
        0 <= k < aliases.len() && aliases[k].0 == m && (forall|j: int| 0 <= j < k ==> #[trigger] aliases[j].0 != m)
            ==> alias_of(aliases, m, name) == aliases[k].1@,
    decreases aliases.len(),
{
    if aliases.len() > 0 && aliases[0].0 != m {
        let rest = aliases.drop_first();
        law_units_alias_is_first_entry(rest, m, name, k - 1);
        if forall|j: int| 0 <= j < aliases.len() ==> #[trigger] aliases[j].0 != m {
            assert forall|j: int| 0 <= j < rest.len() implies #[trigger] rest[j].0 != m by {
                assert(rest[j] == aliases[j + 1]);
                assert(aliases[j + 1].0 != m);
            }
        }
        if 0 <= k < aliases.len() && aliases[k].0 == m && (forall|j: int| 0 <= j < k ==> #[trigger] aliases[j].0 != m) {
            assert(k > 0);
            assert forall|j: int| 0 <= j < k - 1 implies #[trigger] rest[j].0 != m by {
                assert(rest[j] == aliases[j + 1]);
                assert(aliases[j + 1].0 != m);
            }
            assert(rest[k - 1] == aliases[k]);
        }
    }
}


/// Uninstalling asks the managers in order: a manager that does not have
/// the package adds no command, and one that has it adds its uninstall
/// command for the package's name there, after those of the managers before it.
pub proof fn law_uninstall_lines(ms: Seq<PackageManager>, answers: Seq<bool>, p: Package, m: PackageManager, has_it: bool)
    requires
        ms.len() == answers.len(),
    ensures
        uninstall_lines(ms.push(m), answers.push(has_it), p) == if has_it {
            uninstall_lines(ms, answers, p).push(uninstall_line(m, alias_of(p.aliases@, m, p.name@)))
        } else {
            uninstall_lines(ms, answers, p)
        },
        (forall|j: int| 0 <= j < answers.len() ==> !#[trigger] answers[j]) ==> uninstall_lines(ms, answers, p) == Seq::<CommandLineView>::empty(),
    decreases ms.len(),
{
    assert(ms.push(m).drop_last() =~= ms);
    assert(answers.push(has_it).drop_last() =~= answers);
    if ms.len() > 0 {
        law_uninstall_lines(ms.drop_last(), answers.drop_last(), p, ms.last(), answers.last());
        assert(ms.drop_last().push(ms.last()) =~= ms);
        assert(answers.drop_last().push(answers.last()) =~= answers);
        if forall|j: int| 0 <= j < answers.len() ==> !#[trigger] answers[j] {
            assert(!answers[answers.len() - 1]);
            assert forall|j: int| 0 <= j < answers.drop_last().len() implies !#[trigger] answers.drop_last()[j] by {
                assert(answers.drop_last()[j] == answers[j]);
            }
        }
    }
}

/// Only brew and cargo can be bootstrapped: brew by fetching the Homebrew
/// installer with `curl -fsSL` and running it in `bash`, cargo by fetching
/// rustup's installer with `curl` over https only and running it in `sh`.
pub proof fn law_bootstrap_pipes(m: PackageManager)
    ensures
        bootstrap_pipe(PackageManager::Brew) matches Some(p) && p.first.program == seq!['c', 'u', 'r', 'l']
            && p.first.args == seq![seq!['-', 'f', 's', 'S', 'L'], brew_installer_url()]
            && p.second.program == seq!['b', 'a', 's', 'h'] && p.second.args.len() == 0,
        bootstrap_pipe(PackageManager::Cargo) matches Some(p) && p.first.program == seq!['c', 'u', 'r', 'l']
            && p.first.args.last() == rustup_url()
            && p.first.args[0] == seq!['-', '-', 'p', 'r', 'o', 't', 'o']
            && p.second.program == seq!['s', 'h'] && p.second.args.len() == 0,
        m != PackageManager::Brew && m != PackageManager::Cargo ==> bootstrap_pipe(m) is None,
{
}

} // verus!
