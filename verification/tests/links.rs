use yurt::context::parse::Environment;
use yurt::context::{Context, Locale};
use yurt::specs::link::{Link, LinkAction, LinkError, LinkProbe, Status};

fn fixture() -> Link {
    Link::new("/tmp/dir/link.source".to_string(), "/tmp/dir/link.target".to_string())
}

fn probe(target_exists: bool, source_link: Result<&str, &str>, source_exists: bool) -> LinkProbe {
    LinkProbe {
        target_exists,
        source_link: source_link.map(String::from).map_err(String::from),
        source_exists,
    }
}

#[test]
fn status_no_target() {
    let link = fixture();
    let p = probe(false, Err("not found"), false);
    assert!(matches!(link.status(&p), Status::NullTarget));
    assert!(!link.is_valid(&p));
}

#[test]
fn status_no_source() {
    let link = fixture();
    let p = probe(true, Err("not found"), false);
    assert!(matches!(link.status(&p), Status::NullSource));
    assert!(!link.is_valid(&p));
}

#[test]
fn link_status_valid() {
    let link = fixture();
    let p = probe(true, Ok("/tmp/dir/link.target"), true);
    assert!(matches!(link.status(&p), Status::Valid));
    assert!(link.is_valid(&p));
}

#[test]
fn status_same_path_written_differently() {
    let link = fixture();
    let p = probe(true, Ok("/tmp/dir//link.target"), true);
    assert!(link.is_valid(&p));
}

#[test]
fn status_wrong_target() {
    let link = fixture();
    let p = probe(true, Ok("/tmp/dir/wrong.thing"), true);
    assert!(matches!(link.status(&p), Status::InvalidTarget(t) if t == "/tmp/dir/wrong.thing"));
    assert!(!link.is_valid(&p));
}

#[test]
fn status_source_is_file() {
    let link = fixture();
    let p = probe(true, Err("not a link"), true);
    assert!(matches!(link.status(&p), Status::InvalidSource(_)));
    assert!(!link.is_valid(&p));
}

#[test]
fn link_link_normal() {
    let link = fixture();
    assert!(matches!(link.link(&Status::NullSource), LinkAction::Create));
    assert!(matches!(link.link(&Status::Valid), LinkAction::Nothing));
    assert!(matches!(link.link(&Status::NullTarget), LinkAction::Fail(LinkError::TargetMissing)));
    assert!(matches!(link.link(&Status::InvalidTarget("x".to_string())), LinkAction::Fail(LinkError::InvalidTarget(_))));
}

#[test]
fn link_unlink_normal() {
    let link = fixture();
    assert!(link.unlink(&Status::Valid));
    assert!(!link.unlink(&Status::NullSource));
    assert!(!link.unlink(&Status::InvalidSource("e".to_string())));
}

#[test]
fn clean_invalid_source() {
    assert!(fixture().clean(&Status::InvalidSource("e".to_string())));
}

#[test]
fn clean_invalid_target() {
    assert!(fixture().clean(&Status::InvalidTarget("t".to_string())));
}

#[test]
fn link_clean_broken_link() {
    let link = fixture();
    assert!(!link.clean(&Status::Valid));
    assert!(!link.clean(&Status::NullSource));
    assert!(!link.clean(&Status::NullTarget));
}

#[test]
fn link_resolve_expands_paths() {
    let locale = Locale { user: "u".to_string(), platform: "linux".to_string(), distro: "d".to_string() };
    let mut context = Context::new(locale, Environment::empty());
    context.variables.try_push("name", "vimrc".to_string()).unwrap();
    let link = Link::new("~/.${{ name }}".to_string(), "/dotfiles/${{ name }}".to_string());
    let resolved = link.resolve(&context).unwrap();
    assert!(!resolved.source.starts_with('~'));
    assert!(resolved.source.ends_with("/.vimrc"));
    assert_eq!(resolved.target, "/dotfiles/vimrc");
    assert!(Link::new("${{ missing }}".to_string(), "t".to_string()).resolve(&context).is_err());
}

#[test]
fn classify_by_target_answer() {
    let p = probe(true, Ok("/elsewhere"), true);
    assert!(matches!(Link::classify(&p, true), Status::Valid));
    assert!(matches!(Link::classify(&p, false), Status::InvalidTarget(t) if t == "/elsewhere"));
    assert!(matches!(Link::classify(&probe(false, Ok("/x"), true), true), Status::NullTarget));
}
