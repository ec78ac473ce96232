use yurt::pack::{which_has as which_program, PackError, Package as AliasedPackage, PackageManager as Direct, Shell as NamedShell};
use yurt::units::package::{ManagerError, Package, PackageManager};

fn strings(v: &[&str]) -> Vec<String> {
    v.iter().map(|s| s.to_string()).collect()
}

#[test]
fn package_get_name_for_manager() {
    let package = Package {
        name: "name".to_string(),
        managers: vec![PackageManager::Apt, PackageManager::Brew, PackageManager::Cargo],
        aliases: vec![(PackageManager::Brew, "alias".to_string())],
    };
    assert_eq!(package.get_name(PackageManager::Brew), "alias");
    for manager in [PackageManager::Apt, PackageManager::Cargo] {
        assert_eq!(package.get_name(manager), "name");
    }
    let names = package.manager_names();
    assert_eq!(names.len(), 3);
    assert_eq!(names[1].0, PackageManager::Brew);
    assert_eq!(names[1].1, "alias");
}

#[test]
fn units_package_install_with_first_manager() {
    let package = Package {
        name: "delta".to_string(),
        managers: vec![PackageManager::Brew, PackageManager::Apt],
        aliases: vec![(PackageManager::Brew, "git-delta".to_string())],
    };
    assert!(package.install(true).unwrap().is_none());
    let line = package.install(false).unwrap().unwrap();
    assert_eq!(line.program, "brew");
    assert_eq!(line.args, strings(&["install", "-y", "git-delta"]));
    let empty = Package { name: "x".to_string(), managers: vec![], aliases: vec![] };
    assert!(matches!(empty.install(false), Err(ManagerError::Unavailable { .. })));
    assert!(package.is_installed(false, &vec![false, true]));
    assert!(!package.is_installed(false, &vec![false, false]));
    assert!(package.is_installed(true, &vec![]));
}

#[test]
fn units_package_uninstall_where_installed() {
    let package = Package {
        name: "delta".to_string(),
        managers: vec![PackageManager::Brew, PackageManager::Apt],
        aliases: vec![(PackageManager::Brew, "git-delta".to_string())],
    };
    let lines = package.uninstall(&vec![true, true]);
    assert_eq!(lines[0].args, strings(&["uninstall", "-y", "git-delta"]));
    assert_eq!(lines[1].program, "sudo");
    assert_eq!(lines[1].args, strings(&["apt", "remove", "-y", "delta"]));
    assert!(package.uninstall(&vec![false, false]).is_empty());
}

#[test]
fn direct_manager_commands() {
    let apt = Direct::Apt.install("git");
    assert_eq!(apt.program, "sudo");
    assert_eq!(apt.args, strings(&["apt", "install", "git"]));
    let brew = Direct::Brew.install("git");
    assert_eq!(brew.program, "brew");
    assert_eq!(brew.args, strings(&["install", "git"]));
    assert_eq!(Direct::Brew.has("git").unwrap().args, strings(&["list", "git"]));
    assert!(Direct::Apt.has("git").is_none());
    assert_eq!(Direct::Yum.is_available().args, strings(&["yum"]));
    assert_eq!(which_program("zsh").program, "which");
}

#[test]
fn direct_manager_bootstrap() {
    let pipe = Direct::Cargo.bootstrap().unwrap();
    assert_eq!(pipe.first.program, "curl");
    assert_eq!(pipe.first.args, strings(&["--proto", "'=https'", "--tlsv1.2", "-sSf", "https://sh.rustup.rs"]));
    assert_eq!(pipe.second.program, "sh");
    assert!(matches!(Direct::Choco.bootstrap(), Err(PackError::BootstrapUnsupported(Direct::Choco))));
    assert!(Direct::Choco.require(true).unwrap().is_none());
    assert!(Direct::Brew.require(false).unwrap().is_some());
}

#[test]
fn aliased_package_install() {
    let package = AliasedPackage {
        name: "fd".to_string(),
        alias: Some("fd-find".to_string()),
        managers: vec![Direct::Brew, Direct::Apt],
    };
    assert!(AliasedPackage::installed_under(false, false, &vec![false, true]));
    assert!(AliasedPackage::installed_under(false, true, &vec![]));
    assert!(!AliasedPackage::installed_under(false, false, &vec![false]));
    assert!(package.is_installed(false, true));
    assert!(package.install(true, &vec![true, true]).is_none());
    let (index, line) = package.install(false, &vec![false, true]).unwrap();
    assert_eq!(index, 1);
    assert_eq!(line.args, strings(&["apt", "install", "fd"]));
    assert_eq!(package.install_alias(index).unwrap().args, strings(&["apt", "install", "fd-find"]));
    assert!(package.install(false, &vec![false, false]).is_none());
    let plain = AliasedPackage { name: "fd".to_string(), alias: None, managers: vec![Direct::Brew] };
    assert!(!plain.is_installed(false, true));
    assert!(plain.install_alias(0).is_none());
}

#[test]
fn named_shells() {
    assert_eq!(NamedShell::Powershell.path(), "pwsh");
    assert_eq!(NamedShell::Other("fish".to_string()).path(), "fish");
    assert!(NamedShell::Zsh.chsh(&NamedShell::Zsh).is_none());
    let which = NamedShell::Zsh.chsh(&NamedShell::Bash).unwrap();
    assert_eq!(which.args, strings(&["zsh"]));
    let chsh = NamedShell::chsh_to("/bin/zsh".to_string());
    assert_eq!(chsh.program, "chsh");
    assert_eq!(chsh.args, strings(&["-s", "/bin/zsh"]));
    let pipe = NamedShell::Bash.remote_script(&strings(&["-fsSL", "https://example.org"]));
    assert_eq!(pipe.second.program, "bash");
}
