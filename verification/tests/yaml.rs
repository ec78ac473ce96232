use yurt::context::parse::{Environment, KeyError};
use yurt::link::{expand_path, Link};
use yurt::pack::{Package, PackageManager as PackManager};
use yurt::yaml::{
    expand_context, match_inner, match_outer, resolve_cases, update_context, BuildSet, BuildUnit, Case, Context, Locale, PackageBundle,
};

fn check_pattern_outer(input: &str, output: &str) {
    let m = match_outer(input).unwrap();
    assert_eq!(&input[m.start..m.end], input);
    assert_eq!(m.inner, output);
}

fn check_pattern_inner(input: &str, namespace: &str, variable: &str) {
    let (ns, var) = match_inner(input).unwrap();
    assert_eq!(ns, namespace);
    assert_eq!(var, variable);
}

fn local() -> Locale<String> {
    Locale::new("me".to_string(), "linux".to_string(), "arch".to_string())
}

#[test]
fn yaml_substitution_pattern_outer() {
    check_pattern_outer("${{}}", "");
    check_pattern_outer("${{ var }}", " var ");
    check_pattern_outer("${{ env.var }}", " env.var ");
}

#[test]
fn yaml_substitution_pattern_inner() {
    check_pattern_inner("   a.b\t ", "a", "b");
    check_pattern_inner("mod_1.var_1", "mod_1", "var_1");
}

#[test]
fn outer_pattern_finds_first_reference() {
    let m = match_outer("x ${ {{ ${{a.b}} ${{c.d}}").unwrap();
    assert_eq!(m.start, 8);
    assert_eq!(m.inner, "a.b");
    assert!(match_outer("${{ a { b }}").is_none());
    assert!(match_outer("plain").is_none());
}

#[test]
fn inner_pattern_rejects_other_text() {
    assert!(match_inner("a.b.c").is_none());
    assert!(match_inner("1a.b").is_none());
    assert!(match_inner("a .b").is_none());
    assert!(match_inner("a-b.c").is_none());
    assert!(match_inner("var").is_none());
}

#[test]
fn substitute_from_context() {
    let mut context = Context::new(Environment::empty());
    assert_eq!(update_context(&mut context, "name".to_string(), "var_1".to_string(), "val_1".to_string()), None);
    update_context(&mut context, "name".to_string(), "var_2".to_string(), "val_2".to_string());
    assert!(!expand_context(&context, "~").unwrap().is_empty());
    assert_eq!(expand_context(&context, "${{ name.var_1 }}").unwrap(), "val_1");
    assert_eq!(expand_context(&context, "${{ name.var_1 }}/${{ name.var_2 }}").unwrap(), "val_1/val_2");
}

#[test]
fn yaml_context_expands_home() {
    let context = Context::with_home_dir(Environment::empty(), Some("/home/me".to_string()));
    assert_eq!(expand_context(&context, "~/a").unwrap(), "/home/me/a");
    assert!(expand_context(&context, "${{ var_1 }}").is_err());
    let unknown = Context::with_home_dir(Environment::empty(), None);
    assert_eq!(expand_context(&unknown, "~/a").unwrap(), "~/a");
    let empty = Context::with_home_dir(Environment::empty(), Some(String::new()));
    assert_eq!(expand_context(&empty, "~/a").unwrap(), "/a");
}

#[test]
fn context_insert_returns_former_value() {
    let mut context = Context::new(Environment::empty());
    assert_eq!(context.insert("a".to_string(), "b".to_string(), "1".to_string()), None);
    assert_eq!(context.insert("a".to_string(), "b".to_string(), "2".to_string()).as_deref(), Some("1"));
    assert_eq!(context.lookup("a", "b").unwrap(), "2");
}

#[test]
fn context_lookup_errors() {
    let context = Context::new(Environment::new(vec![("HOME".to_string(), "/home/me".to_string())]));
    assert_eq!(context.lookup("env", "HOME").unwrap(), "/home/me");
    assert!(matches!(context.lookup("env", "MISSING"), Err(KeyError::MissingEnvVar(_))));
    assert!(matches!(context.lookup("name", "var"), Err(KeyError::Undefined(_))));
    assert!(matches!(context.substitute("${{ not a reference }}"), Err(KeyError::Invalid(_))));
}

#[test]
fn yaml_positive_match() {
    let case = Case::Positive { spec: Locale::new(None, Some("linux".to_string()), None), build: vec!["a"] };
    assert!(!case.rule(true, &local()).unwrap().is_empty());
}

#[test]
fn yaml_positive_non_match() {
    let case = Case::Positive { spec: Locale::new(None, None, Some("nothere".to_string())), build: vec!["a"] };
    assert!(case.rule(true, &local()).is_none());
}

#[test]
fn yaml_negative_match() {
    let case = Case::Negative { spec: Locale::new(None, Some("nothere".to_string()), None), build: vec!["a"] };
    assert!(case.rule(true, &local()).is_some());
}

#[test]
fn yaml_negative_non_match() {
    let case = Case::Negative { spec: Locale::new(Some("me".to_string()), None, None), build: vec!["a"] };
    assert!(case.rule(true, &local()).is_none());
}

#[test]
fn locale_is_local() {
    assert!(Locale::new(None, None, None).is_local(&local()));
    assert!(Locale::new(Some("me".to_string()), Some("linux".to_string()), Some("arch".to_string())).is_local(&local()));
    assert!(!Locale::new(Some("me".to_string()), None, Some("debian".to_string())).is_local(&local()));
}

#[test]
fn cases_default_after_no_match() {
    let cases = vec![
        Case::Positive { spec: Locale::new(None, Some("windows".to_string()), None), build: 1 },
        Case::Default { build: 2 },
        Case::Positive { spec: Locale::new(None, Some("linux".to_string()), None), build: 3 },
        Case::Default { build: 4 },
    ];
    assert_eq!(resolve_cases(cases, &local()), vec![2, 3]);
}

fn link_set() -> Vec<BuildSet> {
    vec![BuildSet::Link(vec![Link::new("a".to_string(), "b".to_string())])]
}

fn resolve_set(set: BuildSet) -> Vec<BuildUnit> {
    let context = Context::new(Environment::empty());
    set.resolve(&context, &local()).unwrap()
}

#[test]
fn build_set_positive_match() {
    let set = BuildSet::Case(vec![Case::Positive { spec: Locale::new(None, Some("linux".to_string()), None), build: link_set() }]);
    assert!(!resolve_set(set).is_empty());
}

#[test]
fn build_set_negative_non_match() {
    let set = BuildSet::Case(vec![Case::Negative { spec: Locale::new(Some("me".to_string()), None, None), build: link_set() }]);
    assert!(resolve_set(set).is_empty());
}

#[test]
fn build_resolves() {
    let mut context = Context::new(Environment::empty());
    update_context(&mut context, "dots".to_string(), "path".to_string(), "/dots".to_string());
    let sets = vec![
        BuildSet::Link(vec![Link::new("${{ dots.path }}/vimrc".to_string(), "/home/me/.vimrc".to_string())]),
        BuildSet::Run(vec!["echo hi".to_string()]),
        BuildSet::Install(vec![Package { name: "package_0".to_string(), alias: None, managers: vec![PackManager::Brew] }]),
        BuildSet::Bundle(PackageBundle {
            manager: PackManager::Apt,
            packages: vec!["package_1".to_string(), "package_2".to_string()],
        }),
        BuildSet::Bootstrap(vec![PackManager::Brew, PackManager::Cargo]),
    ];
    let units = BuildSet::resolve_all(&sets, &context, &local()).unwrap();
    assert_eq!(units.len(), 7);
    match &units[0] {
        BuildUnit::Link(l) => assert_eq!(l.head, "/dots/vimrc"),
        _ => panic!("a link"),
    }
    assert!(matches!(&units[1], BuildUnit::ShellCmd(c) if c == "echo hi"));
    let names: Vec<String> = units
        .iter()
        .filter_map(|u| match u {
            BuildUnit::Package(p) => Some(p.name.clone()),
            _ => None,
        })
        .collect();
    assert_eq!(names, vec!["package_0", "package_1", "package_2"]);
    assert!(matches!(&units[6], BuildUnit::Bootstrap(PackManager::Cargo)));
    let broken = vec![BuildSet::Link(vec![Link::new("${{ none.here }}".to_string(), "t".to_string())])];
    assert!(BuildSet::resolve_all(&broken, &context, &local()).is_err());
}

#[test]
fn link_expand_path() {
    let mut context = Context::new(Environment::empty());
    update_context(&mut context, "a".to_string(), "b".to_string(), "x".to_string());
    assert_eq!(expand_path("${{ a.b }}/y", &context).unwrap(), "x/y");
    let link = Link::new("${{ a.b }}".to_string(), "t/${{ a.b }}".to_string()).expand(&context).unwrap();
    assert_eq!(link.head, "x");
    assert_eq!(link.tail, "t/x");
}

#[test]
fn build_substitution_pattern_outer() {
    check_pattern_outer("${{}}", "");
    check_pattern_outer("${{ var }}", " var ");
    check_pattern_outer("${{ env.var }}", " env.var ");
}

#[test]
fn build_substitution_pattern_inner() {
    check_pattern_inner("   a.b\t ", "a", "b");
    check_pattern_inner("mod_1.var_1", "mod_1", "var_1");
}
