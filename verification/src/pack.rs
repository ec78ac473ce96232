//! Package managers that are run directly, packages with an alias, and
//! shells named by their kind.
use vstd::prelude::*;
use crate::text::{owned, copy_string};
use crate::specs::shell::{CommandLine, CommandLineView};
use crate::shell::{Pipe, PipeView, pipe, curl_program};
use crate::units::package::{brew_installer_url, rustup_url};

verus! {

/// A package manager known by name.
#[derive(PartialEq, Eq, Structural, Copy, Clone, Debug)]
pub enum PackageManager {
    Apt,
    AptGet,
    Brew,
    Cargo,
    Choco,
    Yum,
}

/// The program of manager `m`.
pub open spec fn program(m: PackageManager) -> Seq<char> {
    match m {
        PackageManager::Apt => seq!['a', 'p', 't'],
        PackageManager::AptGet => seq!['a', 'p', 't', '-', 'g', 'e', 't'],
        PackageManager::Brew => seq!['b', 'r', 'e', 'w'],
        PackageManager::Cargo => seq!['c', 'a', 'r', 'g', 'o'],
        PackageManager::Choco => seq!['c', 'h', 'o', 'c', 'o'],
        PackageManager::Yum => seq!['y', 'u', 'm'],
    }
}

/// The command line that installs `package` with `m`: through `sudo` for
/// apt, apt-get and yum.
pub open spec fn install_command(m: PackageManager, package: Seq<char>) -> CommandLineView {
    if m == PackageManager::Apt || m == PackageManager::AptGet || m == PackageManager::Yum {
        CommandLineView {
            program: seq!['s', 'u', 'd', 'o'],
            args: seq![program(m), seq!['i', 'n', 's', 't', 'a', 'l', 'l'], package],
        }
    } else {
        CommandLineView { program: program(m), args: seq![seq!['i', 'n', 's', 't', 'a', 'l', 'l'], package] }
    }
}

/// `which <name>`.
pub open spec fn which_command(name: Seq<char>) -> CommandLineView {
    CommandLineView { program: seq!['w', 'h', 'i', 'c', 'h'], args: seq![name] }
}

/// Running the script that `curl` fetches with `args` in the shell `s`.
pub open spec fn remote_script_of(s: Shell, args: Seq<Seq<char>>) -> PipeView {
    PipeView { first: CommandLineView { program: curl_program(), args }, second: shell_path(s) }
}

/// The script that bootstraps manager `m`: the Homebrew installer run in
/// `bash`, or rustup's installer run in `sh`.
pub open spec fn bootstrap_script(m: PackageManager) -> Option<PipeView> {
    match m {
        PackageManager::Brew => Some(remote_script_of(Shell::Bash, seq![seq!['-', 'f', 's', 'S', 'L'], brew_installer_url()])),
        PackageManager::Cargo => Some(remote_script_of(Shell::Sh, seq![
            seq!['-', '-', 'p', 'r', 'o', 't', 'o'],
            seq!['\'', '=', 'h', 't', 't', 'p', 's', '\''],
            seq!['-', '-', 't', 'l', 's', 'v', '1', '.', '2'],
            seq!['-', 's', 'S', 'f'],
            rustup_url(),
        ])),
        _ => None,
    }
}

/// Why a package manager cannot do what was asked.
#[derive(Debug)]
pub enum PackError {
    /// The manager cannot be bootstrapped.
    BootstrapUnsupported(PackageManager),
}

/// The command line that checks whether the program `name` is available.
pub fn which_has(name: &str) -> (r: CommandLine)
    ensures
        r@ == which_command(name@),
{
    proof {
        reveal_strlit("which");
        assert("which"@ =~= seq!['w', 'h', 'i', 'c', 'h']);
    }
    let mut args: Vec<String> = Vec::new();
    args.push(owned(name));
    let r = CommandLine { program: owned("which"), args };
    assert(r@.args =~= seq![name@]);
    r
}

/// The command line that asks `dpkg` about the package `name`.
pub fn dpkg_has(name: &str) -> (r: CommandLine)
    ensures
        r@ == (CommandLineView { program: seq!['d', 'p', 'k', 'g'], args: seq![seq!['-', 's'], name@] }),
{
    proof {
        reveal_strlit("dpkg");
        assert("dpkg"@ =~= seq!['d', 'p', 'k', 'g']);
        reveal_strlit("-s");
        assert("-s"@ =~= seq!['-', 's']);
    }
    let mut args: Vec<String> = Vec::new();
    args.push(owned("-s"));
    args.push(owned(name));
    let r = CommandLine { program: owned("dpkg"), args };
    assert(r@.args =~= seq![seq!['-', 's'], name@]);
    r
}

impl PackageManager {
    /// The manager's program.
    pub fn name(self) -> (r: String)
        ensures
            r@ == program(self),
    {
        proof {
            reveal_strlit("apt");
            reveal_strlit("apt-get");
            reveal_strlit("brew");
            reveal_strlit("cargo");
            reveal_strlit("choco");
            reveal_strlit("yum");
            assert("apt"@ =~= seq!['a', 'p', 't']);
            assert("apt-get"@ =~= seq!['a', 'p', 't', '-', 'g', 'e', 't']);
            assert("brew"@ =~= seq!['b', 'r', 'e', 'w']);
            assert("cargo"@ =~= seq!['c', 'a', 'r', 'g', 'o']);
            assert("choco"@ =~= seq!['c', 'h', 'o', 'c', 'o']);
            assert("yum"@ =~= seq!['y', 'u', 'm']);
        }
        match self {
            PackageManager::Apt => owned("apt"),
            PackageManager::AptGet => owned("apt-get"),
            PackageManager::Brew => owned("brew"),
            PackageManager::Cargo => owned("cargo"),
            PackageManager::Choco => owned("choco"),
            PackageManager::Yum => owned("yum"),
        }
    }

    /// The command line that installs `package`.
    pub fn install(self, package: &str) -> (r: CommandLine)
        ensures
            r@ == install_command(self, package@),
    {
        proof {
            reveal_strlit("sudo");
            assert("sudo"@ =~= seq!['s', 'u', 'd', 'o']);
            reveal_strlit("install");
            assert("install"@ =~= seq!['i', 'n', 's', 't', 'a', 'l', 'l']);
        }
        let mut args: Vec<String> = Vec::new();
        let r = match self {
            PackageManager::Apt | PackageManager::AptGet | PackageManager::Yum => {
                args.push(self.name());
                args.push(owned("install"));
                args.push(owned(package));
                CommandLine { program: owned("sudo"), args }
            },
            _ => {
                args.push(owned("install"));
                args.push(owned(package));
                CommandLine { program: self.name(), args }
            },
        };
        assert(r@.args =~= install_command(self, package@).args);
        r
    }

    /// The command line that tells whether `package` is installed; only
    /// Homebrew can tell, for the others the answer is `false`.
    pub fn has(self, package: &str) -> (r: Option<CommandLine>)
        ensures
            self == PackageManager::Brew ==> (r matches Some(c) && c@ == (CommandLineView {
                program: seq!['b', 'r', 'e', 'w'],
                args: seq![seq!['l', 'i', 's', 't'], package@],
            })),
            self != PackageManager::Brew ==> r is None,
    {
        proof {
            reveal_strlit("list");
            assert("list"@ =~= seq!['l', 'i', 's', 't']);
        }
        match self {
            PackageManager::Brew => {
                let mut args: Vec<String> = Vec::new();
                args.push(owned("list"));
                args.push(owned(package));
                let r = CommandLine { program: self.name(), args };
                assert(r@.args =~= seq![seq!['l', 'i', 's', 't'], package@]);
                Some(r)
            },
            _ => None,
        }
    }

    /// The script that installs the manager itself: Homebrew's installer in
    /// `bash`, rustup's installer in `sh`.
    pub fn bootstrap(self) -> (r: Result<Pipe, PackError>)
        ensures
            match bootstrap_script(self) {
                Some(p) => r matches Ok(q) && q@ == p,
                None => r matches Err(PackError::BootstrapUnsupported(m)) && m == self,
            },
    {
        proof {
            reveal_strlit("-fsSL");
            assert("-fsSL"@ =~= seq!['-', 'f', 's', 'S', 'L']);
            reveal_strlit("--proto");
            assert("--proto"@ =~= seq!['-', '-', 'p', 'r', 'o', 't', 'o']);
            reveal_strlit("'=https'");
            assert("'=https'"@ =~= seq!['\'', '=', 'h', 't', 't', 'p', 's', '\'']);
            reveal_strlit("--tlsv1.2");
            assert("--tlsv1.2"@ =~= seq!['-', '-', 't', 'l', 's', 'v', '1', '.', '2']);
            reveal_strlit("-sSf");
            assert("-sSf"@ =~= seq!['-', 's', 'S', 'f']);
        }
        match self {
            PackageManager::Brew => {
                let mut args: Vec<String> = Vec::new();
                args.push(owned("-fsSL"));
                args.push(owned("https://raw.githubusercontent.com/Homebrew/install/HEAD/install.sh"));
                assert(args@.map_values(|a: String| a@) =~= seq![seq!['-', 'f', 's', 'S', 'L'], brew_installer_url()]);
                let p = Shell::Bash.remote_script(&args);
                assert(p@ == bootstrap_script(self).unwrap());
                Ok(p)
            },
            PackageManager::Cargo => {
                let mut args: Vec<String> = Vec::new();
                args.push(owned("--proto"));
                args.push(owned("'=https'"));
                args.push(owned("--tlsv1.2"));
                args.push(owned("-sSf"));
                args.push(owned("https://sh.rustup.rs"));
                assert(args@.map_values(|a: String| a@) =~= seq![
                    seq!['-', '-', 'p', 'r', 'o', 't', 'o'],
                    seq!['\'', '=', 'h', 't', 't', 'p', 's', '\''],
                    seq!['-', '-', 't', 'l', 's', 'v', '1', '.', '2'],
                    seq!['-', 's', 'S', 'f'],
                    rustup_url(),
                ]);
                let p = Shell::Sh.remote_script(&args);
                assert(p@ == bootstrap_script(self).unwrap());
                Ok(p)
            },
            _ => Err(PackError::BootstrapUnsupported(self)),
        }
    }

    /// What requiring the manager does, given whether it is available:
    /// nothing when it is, its bootstrap script otherwise.
    pub fn require(self, available: bool) -> (r: Result<Option<Pipe>, PackError>)
        ensures
            available ==> r matches Ok(None),
            !available ==> match bootstrap_script(self) {
                Some(p) => r matches Ok(Some(q)) && q@ == p,
                None => r matches Err(PackError::BootstrapUnsupported(m)) && m == self,
            },
    {
        if available {
            Ok(None)
        } else {
            match self.bootstrap() {
                Ok(p) => Ok(Some(p)),
                Err(e) => Err(e),
            }
        }
    }

    /// The command line that tells whether the manager's program is available.
    pub fn is_available(self) -> (r: CommandLine)
        ensures
            r@ == which_command(program(self)),
    {
        let name = self.name();
        which_has(name.as_str())
    }
}

/// A shell named by its kind.
pub enum Shell {
    Sh,
    Bash,
    Zsh,
    Powershell,
    Other(String),
}

/// The program of shell `s`, run with no arguments.
pub open spec fn shell_path(s: Shell) -> CommandLineView {
    CommandLineView { program: shell_program(s), args: Seq::empty() }
}

/// The program of shell `s`.
pub open spec fn shell_program(s: Shell) -> Seq<char> {
    match s {
        Shell::Sh => seq!['s', 'h'],
        Shell::Bash => seq!['b', 'a', 's', 'h'],
        Shell::Zsh => seq!['z', 's', 'h'],
        Shell::Powershell => seq!['p', 'w', 's', 'h'],
        Shell::Other(name) => name@,
    }
}

/// Whether two shells are of the same kind (all `Other` shells are).
pub open spec fn same_kind(a: Shell, b: Shell) -> bool {
    match (a, b) {
        (Shell::Sh, Shell::Sh) | (Shell::Bash, Shell::Bash) | (Shell::Zsh, Shell::Zsh)
            | (Shell::Powershell, Shell::Powershell) | (Shell::Other(_), Shell::Other(_)) => true,
        _ => false,
    }
}

impl Shell {
    /// The shell's program.
    pub fn path(&self) -> (r: String)
        ensures
            r@ == shell_program(*self),
    {
        proof {
            reveal_strlit("sh");
            reveal_strlit("bash");
            reveal_strlit("zsh");
            reveal_strlit("pwsh");
            assert("sh"@ =~= seq!['s', 'h']);
            assert("bash"@ =~= seq!['b', 'a', 's', 'h']);
            assert("zsh"@ =~= seq!['z', 's', 'h']);
            assert("pwsh"@ =~= seq!['p', 'w', 's', 'h']);
        }
        match self {
            Shell::Sh => owned("sh"),
            Shell::Bash => owned("bash"),
            Shell::Zsh => owned("zsh"),
            Shell::Powershell => owned("pwsh"),
            Shell::Other(name) => copy_string(name),
        }
    }

    /// Runs the script that `curl` fetches with `curl_args` in this shell.
    pub fn remote_script(&self, curl_args: &Vec<String>) -> (r: Pipe)
        ensures
            r@.first == (CommandLineView { program: curl_program(), args: curl_args@.map_values(|a: String| a@) }),
            r@.second == shell_path(*self),
    {
        proof {
            reveal_strlit("curl");
            assert("curl"@ =~= curl_program());
        }
        let none: Vec<String> = Vec::new();
        let program = self.path();
        let r = pipe("curl", curl_args, program.as_str(), &none);
        assert(none@.map_values(|a: String| a@) =~= Seq::<Seq<char>>::empty());
        r
    }

    /// What changing the login shell to this one takes, `current` being the
    /// login shell: nothing when it is of the same kind, else locating the
    /// program with `which` (then [`Shell::chsh_to`] with what it printed).
    pub fn chsh(&self, current: &Shell) -> (r: Option<CommandLine>)
        ensures
            same_kind(*self, *current) ==> r is None,
            !same_kind(*self, *current) ==> (r matches Some(c) && c@ == which_command(shell_program(*self))),
    {
        let same = match (self, current) {
            (Shell::Sh, Shell::Sh) | (Shell::Bash, Shell::Bash) | (Shell::Zsh, Shell::Zsh)
                | (Shell::Powershell, Shell::Powershell) | (Shell::Other(_), Shell::Other(_)) => true,
            _ => false,
        };
        if same {
            None
        } else {
            let program = self.path();
            Some(which_has(program.as_str()))
        }
    }

    /// `chsh -s <path>`, `path` being what `which` printed.
    pub fn chsh_to(path: String) -> (r: CommandLine)
        ensures
            r@ == (CommandLineView { program: seq!['c', 'h', 's', 'h'], args: seq![seq!['-', 's'], path@] }),
    {
        proof {
            reveal_strlit("chsh");
            assert("chsh"@ =~= seq!['c', 'h', 's', 'h']);
            reveal_strlit("-s");
            assert("-s"@ =~= seq!['-', 's']);
        }
        let mut args: Vec<String> = Vec::new();
        args.push(owned("-s"));
        let ghost p = path@;
        args.push(path);
        let r = CommandLine { program: owned("chsh"), args };
        assert(r@.args =~= seq![seq!['-', 's'], p]);
        r
    }
}

/// A package, possibly known by a second name, and its managers.
pub struct Package {
    pub name: String,
    pub alias: Option<String>,
    pub managers: Vec<PackageManager>,
}

/// Index of the first `true` in `v` at or after `i`, or `-1`.
pub open spec fn first_true(v: Seq<bool>, i: int) -> int
    decreases v.len() - i,
{
    if i < 0 || i >= v.len() {
        -1
    } else if v[i] {
        i
    } else {
        first_true(v, i + 1)
    }
}

impl Package {
    /// Whether a package is installed under one name: a program of that
    /// name is available, `dpkg` knows it, or some manager has it.
    pub fn installed_under(which: bool, dpkg: bool, answers: &Vec<bool>) -> (r: bool)
        ensures
            r == (which || dpkg || answers@.contains(true)),
    {
        if which || dpkg {
            return true;
        }
        let mut i: usize = 0;
        while i < answers.len()
            invariant
                i <= answers@.len(),
                forall|j: int| 0 <= j < i ==> !answers@[j],
            decreases answers@.len() - i,
        {
            if answers[i] {
                assert(answers@[i as int]);
                return true;
            }
            i = i + 1;
        }
        false
    }

    /// Whether the package is installed: under its name, or under its alias
    /// when it has one.
    pub fn is_installed(&self, by_name: bool, by_alias: bool) -> (r: bool)
        ensures
            r == (by_name || (self.alias.is_some() && by_alias)),
    {
        by_name || (self.alias.is_some() && by_alias)
    }

    /// What installing does, given whether the package is installed and
    /// which managers are available: nothing when installed, else the
    /// first available manager installs the package by its name; nothing
    /// either when no manager is available.
    pub fn install(&self, installed: bool, available: &Vec<bool>) -> (r: Option<(usize, CommandLine)>)
        requires
            available@.len() == self.managers@.len(),
        ensures
            installed ==> r is None,
            !installed ==> match r {
                Some((i, c)) => i == first_true(available@, 0) && i < self.managers@.len()
                    && c@ == install_command(self.managers@[i as int], self.name@),
                None => first_true(available@, 0) == -1,
            },
    {
        if installed {
            return None;
        }
        let mut i: usize = 0;
        while i < available.len()
            invariant
                i <= available@.len(),
                !installed,
                available@.len() == self.managers@.len(),
                first_true(available@, 0) == first_true(available@, i as int),
            decreases available@.len() - i,
        {
            if available[i] {
                let line = self.managers[i].install(self.name.as_str());
                return Some((i, line));
            }
            i = i + 1;
        }
        None
    }

    /// After installing by name with the manager at `index` failed, the
    /// command that installs the package by its alias, when it has one.
    pub fn install_alias(&self, index: usize) -> (r: Option<CommandLine>)
        requires
            index < self.managers@.len(),
        ensures
            match self.alias {
                Some(a) => r matches Some(c) && c@ == install_command(self.managers@[index as int], a@),
                None => r is None,
            },
    {
        match &self.alias {
            Some(a) => Some(self.managers[index].install(a.as_str())),
            None => None,
        }
    }
}

/// Each manager is run by the program of its name: `apt`, `apt-get`,
/// `brew`, `cargo`, `choco` and `yum`.
pub proof fn law_pack_manager_programs()
    ensures
        program(PackageManager::Apt) == seq!['a', 'p', 't'],
        program(PackageManager::AptGet) == seq!['a', 'p', 't', '-', 'g', 'e', 't'],
        program(PackageManager::Brew) == seq!['b', 'r', 'e', 'w'],
        program(PackageManager::Cargo) == seq!['c', 'a', 'r', 'g', 'o'],
        program(PackageManager::Choco) == seq!['c', 'h', 'o', 'c', 'o'],
        program(PackageManager::Yum) == seq!['y', 'u', 'm'],
{
}

/// Installing with apt, apt-get or yum runs `sudo <manager> install
/// <package>`; with brew, cargo or choco it runs `<manager> install
/// <package>` directly. Either way the command ends with `install` and the
/// package, and names the manager's program.
pub proof fn law_install_goes_through_sudo_for_system_managers(m: PackageManager, package: Seq<char>)
    ensures
        (m == PackageManager::Apt || m == PackageManager::AptGet || m == PackageManager::Yum) ==> install_command(m, package) == (CommandLineView {
            program: seq!['s', 'u', 'd', 'o'],
            args: seq![program(m), seq!['i', 'n', 's', 't', 'a', 'l', 'l'], package],
        }),
        (m == PackageManager::Brew || m == PackageManager::Cargo || m == PackageManager::Choco) ==> install_command(m, package) == (CommandLineView {
            program: program(m),
            args: seq![seq!['i', 'n', 's', 't', 'a', 'l', 'l'], package],
        }),
        install_command(m, package).args.last() == package,
        install_command(m, package).args[install_command(m, package).args.len() - 2] == seq!['i', 'n', 's', 't', 'a', 'l', 'l'],
{
}

/// The bootstrap scripts: the Homebrew installer fetched with `curl -fsSL`
/// and run in `bash`, and rustup's installer fetched with `curl` and run in
/// `sh`; no other manager can be bootstrapped.
pub proof fn law_bootstrap_scripts(m: PackageManager)
    ensures
        bootstrap_script(PackageManager::Brew) matches Some(p) && p.first.program == seq!['c', 'u', 'r', 'l']
            && p.first.args == seq![seq!['-', 'f', 's', 'S', 'L'], brew_installer_url()]
            && p.second == (CommandLineView { program: seq!['b', 'a', 's', 'h'], args: Seq::empty() }),
        bootstrap_script(PackageManager::Cargo) matches Some(p) && p.first.program == seq!['c', 'u', 'r', 'l']
            && p.first.args.last() == rustup_url()
            && p.second == (CommandLineView { program: seq!['s', 'h'], args: Seq::empty() }),
        m != PackageManager::Brew && m != PackageManager::Cargo ==> bootstrap_script(m) is None,
{
}

/// A program is looked for with `which <name>`.
pub proof fn law_pack_which(name: Seq<char>)
    ensures
        which_command(name) == (CommandLineView { program: seq!['w', 'h', 'i', 'c', 'h'], args: seq![name] }),
{
}

/// The first available manager is the first index at or after `i` whose
/// answer is `true`, every earlier one (from `i`) being `false`; there is
/// none exactly when no answer from `i` on is `true`.
pub proof fn law_first_true(v: Seq<bool>, i: int)
    requires
        0 <= i,
    ensures
        first_true(v, i) == -1 <==> (forall|j: int| i <= j < v.len() ==> !#[trigger] v[j]),
        first_true(v, i) != -1 ==> i <= first_true(v, i) < v.len() && v[first_true(v, i)]
            && forall|j: int| i <= j < first_true(v, i) ==> !#[trigger] v[j],
    decreases v.len() - i,
{
    if i < v.len() && !v[i] {
        law_first_true(v, i + 1);
        assert forall|j: int| i <= j < v.len() && (forall|k: int| i + 1 <= k < v.len() ==> !#[trigger] v[k]) implies !#[trigger] v[j] by {
            if j > i {
                assert(!v[j]);
            }
        }
    }
}

} // verus!
