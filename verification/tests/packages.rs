use yurt::context::parse::Environment;
use yurt::context::{Context, Locale};
use yurt::specs::package::{which_has, InstallAttempt, InstallStep, InstalledQuery, Package, PackageError, PackageManager, UninstallStep};
use yurt::specs::shell::command::Outcome;
use yurt::specs::shell::{Shell, ShellCommand};
use yurt::pack::dpkg_has;
use yurt::units::package::{has_answer, ManagerError, PackageManager as KnownManager};

fn context() -> Context {
    let locale = Locale { user: "u".to_string(), platform: "linux".to_string(), distro: "d".to_string() };
    Context::new(locale, Environment::empty())
}

fn manager(name: &str) -> PackageManager {
    PackageManager {
        name: name.to_string(),
        shell_bootstrap: None,
        shell_install: None,
        shell_uninstall: None,
        shell_has: None,
    }
}

fn package(name: &str, managers: &[&str]) -> Package {
    Package { name: name.to_string(), managers: managers.iter().map(|m| m.to_string()).collect(), aliases: vec![] }
}

fn strings(v: &[&str]) -> Vec<String> {
    v.iter().map(|s| s.to_string()).collect()
}

fn exited(code: i32) -> Outcome {
    Outcome::Exited { code, stderr: String::new() }
}

#[test]
fn package_which_has_cargo() {
    let line = which_has("cargo", "linux");
    assert_eq!(line.program, "which");
    assert_eq!(line.args, strings(&["cargo"]));
    assert!(has_answer(&exited(0)));
    assert_eq!(which_has("cargo", "windows").program, "where");
}

#[test]
fn package_which_not_has_fake() {
    let line = which_has("some_missing_package", "linux");
    assert_eq!(line.args, strings(&["some_missing_package"]));
    assert!(!has_answer(&exited(1)));
    assert!(!has_answer(&Outcome::NotStarted { reason: "no which".to_string() }));
}

#[test]
fn alias() {
    let not_aliased = manager("not_aliased");
    let aliased = manager("aliased");
    let package = Package {
        name: "name".to_string(),
        managers: vec![aliased.name.clone()],
        aliases: vec![(aliased.name.clone(), "alias".to_string())],
    };
    assert_eq!(package.alias(&aliased), "alias");
    assert_eq!(package.alias(&not_aliased), "name");
}

#[test]
fn prune_empty() {
    let resolved = package("some-package", &[]).resolve(&context()).unwrap();
    assert!(resolved.managers.is_empty());
}

#[test]
fn prune_some() {
    let mut context = context();
    manager("cargo").resolve(&mut context);
    manager("brew").resolve(&mut context);
    let resolved = package("some-package", &["apt", "brew"]).resolve(&context).unwrap();
    assert_eq!(resolved.managers, strings(&["brew"]));
}

#[test]
fn all_declared_managers_when_none_named() {
    let mut context = context();
    manager("cargo").resolve(&mut context);
    manager("brew").resolve(&mut context);
    manager("cargo").resolve(&mut context);
    let resolved = package("some-package", &[]).resolve(&context).unwrap();
    assert_eq!(resolved.managers, strings(&["cargo", "brew"]));
}

#[test]
fn package_package_name_substitution() {
    let mut context = context();
    context.variables.try_push("key", "value".to_string()).unwrap();
    let resolved = package("${{ key }}", &[]).resolve(&context).unwrap();
    assert_eq!(resolved.name, "value");
}

#[test]
fn bootstrap_not_implemented() {
    assert!(matches!(manager("arbitrary_manager").bootstrap(), Err(PackageError::NotImplemented { .. })));
}

#[test]
fn empty_bootstrap() {
    assert!(manager("made-up-name").bootstrap().is_err());
}

#[test]
fn install_not_implemented() {
    let result = manager("arbitrary_manager").install_package(&package("arbitrary_package", &[]));
    assert!(matches!(result, Err(PackageError::NotImplemented { .. })));
}

#[test]
fn uninstall_not_implemented() {
    let result = manager("arbitrary_manager").uninstall_package(&package("arbitrary_package", &[]));
    assert!(result.is_err());
}

#[test]
fn has_not_implemented() {
    assert!(manager("arbitrary_manager").has(&package("arbitrary_package", &[])).is_err());
}

#[test]
fn has_package_command_uses_alias() {
    let mut cargo = manager("cargo");
    cargo.shell_has = Some(ShellCommand::new(
        Shell::for_os("linux"),
        "cargo install --list | grep '^${{ package.alias }} v'".to_string(),
    ));
    let line = cargo.has(&package("arbitrary_package", &[])).unwrap();
    assert_eq!(line.program, "sh");
    assert_eq!(line.args[1], "cargo install --list | grep '^arbitrary_package v'");
    assert!(!has_answer(&exited(1)));
}

#[test]
fn install_command_rejects_other_keys() {
    let mut apt = manager("apt");
    apt.shell_install = Some(ShellCommand::new(Shell::for_os("linux"), "apt install ${{ other }}".to_string()));
    assert!(matches!(apt.install_package(&package("x", &[])), Err(PackageError::Substitution { .. })));
}

#[test]
fn manager_is_available_asks_which() {
    let line = manager("brew").is_available("macos");
    assert_eq!(line.program, "which");
    assert_eq!(line.args, strings(&["brew"]));
}

#[test]
fn known_manager_install_commands() {
    let apt = KnownManager::Apt.install("ripgrep");
    assert_eq!(apt.program, "sudo");
    assert_eq!(apt.args, strings(&["apt", "install", "-y", "ripgrep"]));
    let cargo = KnownManager::Cargo.install("ripgrep");
    assert_eq!(cargo.program, "cargo");
    assert_eq!(cargo.args, strings(&["install", "ripgrep"]));
    let brew = KnownManager::Brew.install("ripgrep");
    assert_eq!(brew.program, "brew");
    assert_eq!(brew.args, strings(&["install", "-y", "ripgrep"]));
}

#[test]
fn known_manager_uninstall_commands() {
    let yum = KnownManager::Yum.uninstall("ripgrep");
    assert_eq!(yum.program, "sudo");
    assert_eq!(yum.args, strings(&["yum", "remove", "-y", "ripgrep"]));
    let cargo = KnownManager::Cargo.uninstall("ripgrep");
    assert_eq!(cargo.args, strings(&["uninstall", "ripgrep"]));
    let choco = KnownManager::Choco.uninstall("ripgrep");
    assert_eq!(choco.program, "choco");
    assert_eq!(choco.args, strings(&["uninstall", "-y", "ripgrep"]));
}

#[test]
fn known_manager_has_commands() {
    let apt = KnownManager::AptGet.has("ripgrep", "linux").unwrap();
    assert_eq!(apt.program, "dpkg");
    assert_eq!(apt.args, strings(&["-l", "ripgrep"]));
    let cargo = KnownManager::Cargo.has("ripgrep", "linux").unwrap();
    assert_eq!(cargo.program, "sh");
    assert_eq!(cargo.args, strings(&["-c", "cargo install --list | grep '^ripgrep v'"]));
    let cargo_windows = KnownManager::Cargo.has("ripgrep", "windows").unwrap();
    assert_eq!(cargo_windows.program, "cmd");
    assert_eq!(cargo_windows.args, strings(&["/C", "cargo install --list | findstr /b /l /c:ripgrep"]));
    assert_eq!(KnownManager::Pkg.has("ripgrep", "freebsd").unwrap().args, strings(&["info", "ripgrep"]));
    assert!(KnownManager::Yum.has("ripgrep", "linux").is_none());
    assert!(KnownManager::Choco.has("ripgrep", "windows").is_none());
}

#[test]
fn known_manager_bootstrap() {
    let brew = KnownManager::Brew.bootstrap().unwrap();
    assert_eq!(brew.first.program, "curl");
    assert_eq!(
        brew.first.args,
        strings(&["-fsSL", "https://raw.githubusercontent.com/Homebrew/install/HEAD/install.sh"])
    );
    assert_eq!(brew.second.program, "bash");
    let cargo = KnownManager::Cargo.bootstrap().unwrap();
    assert_eq!(cargo.first.args, strings(&["--proto", "'=https'", "--tlsv1.2", "-sSf", "https://sh.rustup.rs"]));
    assert_eq!(cargo.second.program, "sh");
    assert!(matches!(KnownManager::Apt.bootstrap(), Err(ManagerError::BootstrapUnsupported(KnownManager::Apt))));
}

#[test]
fn known_manager_require() {
    assert!(KnownManager::Brew.require(true).unwrap().is_none());
    assert!(KnownManager::Brew.require(false).unwrap().is_some());
    assert!(KnownManager::Yum.require(true).unwrap().is_none());
    assert!(KnownManager::Yum.require(false).is_err());
}

#[test]
fn known_manager_is_available() {
    let line = KnownManager::AptGet.is_available("linux");
    assert_eq!(line.program, "which");
    assert_eq!(line.args, strings(&["apt-get"]));
}

#[test]
fn dpkg_status_command() {
    let line = dpkg_has("git");
    assert_eq!(line.program, "dpkg");
    assert_eq!(line.args, strings(&["-s", "git"]));
}

fn with_install(name: &str, install: Option<&str>) -> PackageManager {
    let mut m = manager(name);
    m.shell_install = install.map(|c| ShellCommand::new(Shell::for_os("linux"), c.to_string()));
    m.shell_uninstall = install.map(|c| ShellCommand::new(Shell::for_os("linux"), c.replace("install", "remove")));
    m
}

#[test]
fn declared_managers_in_package_order() {
    let mut context = context();
    with_install("brew", Some("brew install ${{ package.alias }}")).resolve(&mut context);
    with_install("apt", Some("apt install ${{ package.alias }}")).resolve(&mut context);
    let p = package("bat", &["apt", "cargo", "brew"]);
    let names: Vec<String> = p.declared_managers(&context).into_iter().map(|m| m.name).collect();
    assert_eq!(names, strings(&["apt", "brew"]));
}

#[test]
fn install_steps_try_managers_in_order() {
    let managers = vec![
        with_install("none", None),
        with_install("brew", Some("brew install ${{ package.alias }}")),
        with_install("apt", Some("apt install ${{ package.alias }}")),
    ];
    let p = package("bat", &[]);
    assert!(matches!(p.install_step(&managers, true, 0), InstallStep::Installed));
    match p.install_step(&managers, false, 0) {
        InstallStep::Failed { index, error } => {
            assert_eq!(index, 0);
            assert!(matches!(error, PackageError::NotImplemented { .. }));
        }
        _ => panic!("the first manager cannot install"),
    }
    match p.install_step(&managers, false, 1) {
        InstallStep::Run { index, line } => {
            assert_eq!(index, 1);
            assert_eq!(line.args[1], "brew install bat");
        }
        _ => panic!("brew can install"),
    }
    match p.install_step(&managers, false, 2) {
        InstallStep::Run { index, line } => {
            assert_eq!(index, 2);
            assert_eq!(line.args[1], "apt install bat");
        }
        _ => panic!("apt can install"),
    }
    assert!(matches!(p.install_step(&managers, false, 3), InstallStep::Unavailable));
}

#[test]
fn package_check_installed() {
    let p = package("cargo", &[]);
    assert!(p.is_installed(&vec![false, true], false));
    assert!(p.is_installed(&vec![], true));
}

#[test]
fn package_check_not_installed() {
    let p = package("some_missing_package", &[]);
    assert!(!p.is_installed(&vec![false, false], false));
}

#[test]
fn uninstall_step_for_each_manager() {
    let apt = with_install("apt", Some("apt install ${{ package.alias }}"));
    let p = package("bat", &[]);
    assert!(matches!(p.uninstall_step(&apt, false), UninstallStep::Skip));
    match p.uninstall_step(&apt, true) {
        UninstallStep::Run { line } => assert_eq!(line.args[1], "apt remove bat"),
        _ => panic!("apt can uninstall"),
    }
    let broken = with_install("none", None);
    assert!(matches!(p.uninstall_step(&broken, true), UninstallStep::Failed { error: PackageError::NotImplemented { .. } }));
    assert!(matches!(p.uninstall_step(&broken, false), UninstallStep::Skip));
}

#[test]
fn manager_require_bootstraps_when_missing() {
    let mut brew = manager("brew");
    assert!(brew.require(true).unwrap().is_none());
    assert!(brew.require(false).is_err());
    brew.shell_bootstrap = Some(ShellCommand::new(Shell::for_os("linux"), "curl -fsSL https://x | bash".to_string()));
    assert_eq!(brew.require(false).unwrap().unwrap().args[1], "curl -fsSL https://x | bash");
}

#[test]
fn has_package_not_installed() {
    let mut cargo = manager("cargo");
    cargo.shell_has = Some(ShellCommand::new(
        Shell::for_os("linux"),
        "cargo install --list | grep '^${{ package.alias }} v'".to_string(),
    ));
    let line = cargo.has(&package("arbitrary_package", &[])).unwrap();
    assert_eq!(line.args[1], "cargo install --list | grep '^arbitrary_package v'");
    assert!(!has_answer(&exited(1)));
}

#[test]
fn install_next_stops_at_first_success() {
    let managers = vec![
        with_install("none", None),
        with_install("brew", Some("brew install ${{ package.alias }}")),
        with_install("apt", Some("apt install ${{ package.alias }}")),
    ];
    let p = package("bat", &[]);
    assert!(matches!(p.install_next(&managers, true, None), InstallStep::Installed));
    assert!(matches!(p.install_next(&managers, false, None), InstallStep::Failed { index: 0, .. }));
    let after_failure = Some(InstallAttempt { index: 0, succeeded: false });
    match p.install_next(&managers, false, after_failure) {
        InstallStep::Run { index, line } => {
            assert_eq!(index, 1);
            assert_eq!(line.args[1], "brew install bat");
        }
        _ => panic!("brew is tried next"),
    }
    let brew_ran = Some(InstallAttempt { index: 1, succeeded: true });
    assert!(matches!(p.install_next(&managers, false, brew_ran), InstallStep::Done { index: 1 }));
    let brew_failed = Some(InstallAttempt { index: 1, succeeded: false });
    assert!(matches!(p.install_next(&managers, false, brew_failed), InstallStep::Run { index: 2, .. }));
    let apt_failed = Some(InstallAttempt { index: 2, succeeded: false });
    assert!(matches!(p.install_next(&managers, false, apt_failed), InstallStep::Unavailable));
    assert!(matches!(package("bat", &[]).install_next(&vec![], false, None), InstallStep::Unavailable));
}

#[test]
fn installed_query_stops_at_first_manager_that_has_it() {
    let p = package("bat", &[]);
    assert!(matches!(p.installed_query(3, &vec![], None), InstalledQuery::AskManager { index: 0 }));
    assert!(matches!(p.installed_query(3, &vec![false], None), InstalledQuery::AskManager { index: 1 }));
    assert!(matches!(p.installed_query(3, &vec![false, true], None), InstalledQuery::Known { installed: true }));
    assert!(matches!(p.installed_query(3, &vec![false, false, false], None), InstalledQuery::AskWhich));
    assert!(matches!(p.installed_query(3, &vec![false, false, false], Some(true)), InstalledQuery::Known { installed: true }));
    assert!(matches!(p.installed_query(0, &vec![], Some(false)), InstalledQuery::Known { installed: false }));
}

