use yurt::context::parse::Environment;
use yurt::context::{Context, Locale};
use yurt::specs::repo::{Credential, MergeAnalysis, PullStep, Repo, RepoError, Requirement};

fn repo(path: &str) -> Repo {
    Repo {
        path: path.to_string(),
        url: "www.web.site".to_string(),
        branch: None,
        remote: None,
        ssh_key_path: None,
    }
}

fn own_repo() -> Repo {
    Repo {
        path: "/src/yurt".to_string(),
        url: "https://github.com/jcthomassie/yurt.git".to_string(),
        branch: Some("main".to_string()),
        remote: Some("origin".to_string()),
        ssh_key_path: None,
    }
}

#[test]
fn repo_require() {
    assert!(matches!(own_repo().require(&Ok(())), Requirement::Open));
    match own_repo().require(&Err("not a repository".to_string())) {
        Requirement::Clone { url, path, branch } => {
            assert_eq!(url, "https://github.com/jcthomassie/yurt.git");
            assert_eq!(path, "/src/yurt");
            assert_eq!(branch, "main");
        }
        Requirement::Open => panic!("a missing repository is cloned"),
    }
}

#[test]
fn repo_is_available() {
    assert!(own_repo().is_available(&Ok(())));
    assert!(!own_repo().is_available(&Err("missing".to_string())));
}

#[test]
fn repo_empty_path() {
    assert!(matches!(repo("").name(), Err(RepoError::EmptyName)));
    assert!(repo("trailing/").name().is_err());
}

#[test]
fn repo_unix_path() {
    assert_eq!(repo("path/to/my-repo").name().unwrap(), "my-repo");
}

#[test]
fn repo_windows_path() {
    assert_eq!(repo("path\\to\\my-repo").name().unwrap(), "my-repo");
}

#[test]
fn default_branch_and_remote() {
    assert_eq!(repo("a").branch_name(), "main");
    assert_eq!(repo("a").remote_name(), "origin");
    let mut custom = repo("a");
    custom.branch = Some("dev".to_string());
    custom.remote = Some("upstream".to_string());
    assert_eq!(custom.branch_name(), "dev");
    assert_eq!(custom.remote_name(), "upstream");
}

#[test]
fn credential_choice() {
    let mut r = repo("a");
    assert!(matches!(r.credential(None, true), Credential::Username { user } if user == "git"));
    assert!(matches!(r.credential(Some("me".to_string()), false), Credential::Default));
    r.ssh_key_path = Some("/home/me/.ssh/id".to_string());
    match r.credential(Some("me".to_string()), false) {
        Credential::SshKey { user, key_path } => {
            assert_eq!(user, "me");
            assert_eq!(key_path, "/home/me/.ssh/id");
        }
        _ => panic!("the ssh key is offered"),
    }
}

#[test]
fn pull_steps() {
    let r = repo("a");
    let up = MergeAnalysis { up_to_date: true, fast_forward: true };
    assert!(matches!(r.pull_step(&up), Ok(PullStep::UpToDate)));
    let ff = MergeAnalysis { up_to_date: false, fast_forward: true };
    match r.pull_step(&ff) {
        Ok(PullStep::FastForward { reference }) => assert_eq!(reference, "refs/heads/main"),
        _ => panic!("a fast-forward is possible"),
    }
    let diverged = MergeAnalysis { up_to_date: false, fast_forward: false };
    assert!(matches!(r.pull_step(&diverged), Err(RepoError::NoFastForward)));
}

#[test]
fn repo_resolve_publishes_variables() {
    let locale = Locale { user: "u".to_string(), platform: "linux".to_string(), distro: "d".to_string() };
    let mut context = Context::new(locale, Environment::empty());
    context.variables.try_push("root", "/code".to_string()).unwrap();
    let resolved = repo("${{ root }}/yurt").resolve(&mut context).unwrap();
    assert_eq!(resolved.path, "/code/yurt");
    assert_eq!(context.parse_str("${{ repo.path }}").unwrap(), "/code/yurt");
    assert_eq!(context.parse_str("${{ repo#yurt.url }}").unwrap(), "www.web.site");
}

#[test]
fn repo_require_clones_on_the_default_branch() {
    match repo("/src/dots").require(&Err("not a repository".to_string())) {
        Requirement::Clone { url, path, branch } => {
            assert_eq!(url, "www.web.site");
            assert_eq!(path, "/src/dots");
            assert_eq!(branch, "main");
        }
        Requirement::Open => panic!("a missing repository is cloned"),
    }
    assert!(!repo("/src/dots").is_available(&Err("not a repository".to_string())));
}
