use yurt::args::{ArgsError, ConfigSource, YurtAction, YurtArgs};
use yurt::config::{check_version, version_matches, Config, ConfigError, ConfigResolution, VERSION};
use yurt::context::parse::Environment;
use yurt::context::{Context, Locale};
use yurt::specs::dynamic::{Case, CaseBranch, Condition, Evaluation, Matrix, Vars};
use yurt::specs::link::Link;
use yurt::specs::package::{Package, PackageManager};
use yurt::specs::shell::{Hook, Shell, ShellCommand, ShellHook};
use yurt::specs::{BuildSpec, BuildUnit, BuildUnitKind, Resolution, ResolveError};

fn locale() -> Locale {
    Locale { user: "u".to_string(), platform: "linux".to_string(), distro: "d".to_string() }
}

fn context() -> Context {
    Context::new(locale(), Environment::empty())
}

fn link(source: &str, target: &str) -> BuildSpec {
    BuildSpec::Link(Link::new(source.to_string(), target.to_string()))
}

fn row(pairs: &[(&str, &str)]) -> Vec<(String, String)> {
    pairs.iter().map(|(k, v)| (k.to_string(), v.to_string())).collect()
}

fn units(r: Resolution) -> Vec<BuildUnit> {
    match r {
        Resolution::Done { units, .. } => units,
        Resolution::Pending { .. } => panic!("resolution is pending"),
        Resolution::Failed { error } => panic!("resolution failed: {error:?}"),
    }
}

fn sources(units: &[BuildUnit]) -> Vec<String> {
    units
        .iter()
        .map(|u| match u {
            BuildUnit::Link(l) => l.source.clone(),
            _ => panic!("not a link"),
        })
        .collect()
}

fn branch(condition: Condition, when: Option<bool>) -> CaseBranch<&'static str> {
    CaseBranch { condition, when, build: "something" }
}

fn taken(b: &CaseBranch<&'static str>) -> bool {
    match b.evaluate(&locale(), &vec![], 0) {
        Evaluation::Value { value, .. } => value,
        Evaluation::Pending { .. } => panic!("no command here"),
    }
}

#[test]
fn dynamic_positive_match() {
    assert!(taken(&branch(Condition::Bool(true), Some(true))));
}

#[test]
fn dynamic_positive_non_match() {
    assert!(!taken(&branch(Condition::Bool(false), Some(true))));
}

#[test]
fn dynamic_negative_match() {
    assert!(taken(&branch(Condition::Bool(false), Some(false))));
}

#[test]
fn dynamic_negative_non_match() {
    assert!(!taken(&branch(Condition::Bool(true), Some(false))));
}

#[test]
fn vars_resolve() {
    let vars = Vars(row(&[("key_a", "val_a"), ("key_b", "val_b")]));
    let mut context = context();
    let built = units(BuildSpec::resolve_all(&vec![BuildSpec::Vars(vars)], &mut context, &vec![], 0));
    assert!(built.is_empty());
    assert_eq!(context.parse_str("${{ vars.key_a }}").unwrap(), "val_a");
    assert_eq!(context.parse_str("${{ vars.key_b }}").unwrap(), "val_b");
}

#[test]
fn matrix_empty() {
    let matrix = Matrix { values: vec![], build: vec![] };
    let mut context = context();
    match BuildSpec::resolve_all(&vec![BuildSpec::Matrix(matrix)], &mut context, &vec![], 0) {
        Resolution::Failed { error: ResolveError::EmptyMatrix } => {}
        _ => panic!("an empty matrix fails"),
    }
}

#[test]
fn empty_matrix_leaves_variables_unchanged() {
    let mut context = context();
    context.variables.try_push("outer.key", "value".to_string()).unwrap();
    let matrix = Matrix { values: vec![], build: vec![link("${{ outer.key }}", "t")] };
    assert!(matches!(
        BuildSpec::resolve_all(&vec![BuildSpec::Matrix(matrix)], &mut context, &vec![], 0),
        Resolution::Failed { error: ResolveError::EmptyMatrix }
    ));
    assert_eq!(context.parse_str("${{ outer.key }}").unwrap(), "value");
    assert!(context.parse_str("${{ matrix.a }}").is_err());
}

#[test]
fn matrix_row_failure_keeps_values_published_before_it() {
    let mut context = context();
    let matrix = Matrix {
        values: vec![row(&[("a", "x"), ("b", "${{ missing.key }}")])],
        build: vec![link("${{ matrix.a }}", "t")],
    };
    assert!(matches!(
        BuildSpec::resolve_all(&vec![BuildSpec::Matrix(matrix)], &mut context, &vec![], 0),
        Resolution::Failed { error: ResolveError::Key(_) }
    ));
    assert_eq!(context.parse_str("${{ matrix.a }}").unwrap(), "x");
    assert!(context.parse_str("${{ matrix.b }}").is_err());
}

#[test]
fn dynamic_matrix_expansion() {
    let mut context = context();
    context.variables.try_push("outer.key", "value".to_string()).unwrap();
    let matrix = Matrix {
        values: vec![
            row(&[("a", "${{ outer.key }}_a")]),
            row(&[("a", "${{ outer.key }}_b")]),
            row(&[("a", "${{ outer.key }}_c")]),
        ],
        build: vec![link("${{ matrix.a }}", "const")],
    };
    let built = units(BuildSpec::resolve_all(&vec![BuildSpec::Matrix(matrix)], &mut context, &vec![], 0));
    assert_eq!(sources(&built), vec!["value_a", "value_b", "value_c"]);
    assert!(context.parse_str("${{ matrix.a }}").is_err());
}

#[test]
fn case_resolves_first_match_only() {
    let case = Case(vec![
        CaseBranch { condition: Condition::Bool(false), when: None, build: vec![link("first", "t")] },
        CaseBranch { condition: Condition::Bool(true), when: None, build: vec![link("second", "t")] },
        CaseBranch { condition: Condition::Default, when: None, build: vec![link("third", "t")] },
    ]);
    let built = units(BuildSpec::resolve_all(&vec![BuildSpec::Case(case)], &mut context(), &vec![], 0));
    assert_eq!(sources(&built), vec!["second"]);
}

#[test]
fn case_waits_for_eval_outcome() {
    let case = || {
        BuildSpec::Case(Case(vec![
            CaseBranch {
                condition: Condition::Eval(ShellCommand::new(Shell::for_os("linux"), "test -d /".to_string())),
                when: None,
                build: vec![link("yes", "t")],
            },
            CaseBranch { condition: Condition::Default, when: None, build: vec![link("no", "t")] },
        ]))
    };
    match BuildSpec::resolve_all(&vec![case()], &mut context(), &vec![], 0) {
        Resolution::Pending { command } => assert_eq!(command.command, "test -d /"),
        _ => panic!("the command must run first"),
    }
    assert_eq!(sources(&units(BuildSpec::resolve_all(&vec![case()], &mut context(), &vec![true], 0))), vec!["yes"]);
    assert_eq!(sources(&units(BuildSpec::resolve_all(&vec![case()], &mut context(), &vec![false], 0))), vec!["no"]);
}

#[test]
fn build_order_is_preserved() {
    let mut context = context();
    let specs = vec![
        link("one", "t"),
        BuildSpec::Vars(Vars(row(&[("x", "two")]))),
        link("${{ vars.x }}", "t"),
        BuildSpec::PackageManager(PackageManager {
            name: "brew".to_string(),
            shell_bootstrap: None,
            shell_install: None,
            shell_uninstall: None,
            shell_has: None,
        }),
        BuildSpec::Package(Package { name: "bat".to_string(), managers: vec![], aliases: vec![] }),
        link("three", "t"),
    ];
    let built = units(BuildSpec::resolve_all(&specs, &mut context, &vec![], 0));
    let kinds: Vec<BuildUnitKind> = built.iter().map(|u| u.kind()).collect();
    assert_eq!(
        kinds,
        vec![BuildUnitKind::Link, BuildUnitKind::Link, BuildUnitKind::PackageManager, BuildUnitKind::Package, BuildUnitKind::Link]
    );
    match &built[3] {
        BuildUnit::Package(p) => assert_eq!(p.managers, vec!["brew".to_string()]),
        _ => panic!("a package"),
    }
    match &built[1] {
        BuildUnit::Link(l) => assert_eq!(l.source, "two"),
        _ => panic!("a link"),
    }
}

#[test]
fn hook_command_is_substituted() {
    let mut context = context();
    context.variables.try_push("dir", "/tmp".to_string()).unwrap();
    let hook = ShellHook {
        on: vec![Hook::Install],
        command: ShellCommand::new(Shell::for_os("linux"), "ls ${{ dir }}".to_string()),
    };
    let built = units(BuildSpec::resolve_all(&vec![BuildSpec::Hook(hook)], &mut context, &vec![], 0));
    match &built[0] {
        BuildUnit::Hook(h) => assert_eq!(h.command.command, "ls /tmp"),
        _ => panic!("a hook"),
    }
}

#[test]
fn unit_included_in_kinds() {
    let built = units(BuildSpec::resolve_all(&vec![link("a", "b")], &mut context(), &vec![], 0));
    assert!(built[0].included_in(&[BuildUnitKind::Repo, BuildUnitKind::Link]));
    assert!(!built[0].included_in(&[BuildUnitKind::Hook]));
}

fn args(only: Option<Vec<BuildUnitKind>>, exclude: Option<Vec<BuildUnitKind>>, action: YurtAction) -> YurtArgs {
    YurtArgs {
        file: None,
        file_url: None,
        log: None,
        root: false,
        override_user: Some("u".to_string()),
        override_platform: Some("linux".to_string()),
        override_distro: Some("d".to_string()),
        only,
        exclude,
        action,
    }
}

fn resolved(specs: Vec<BuildSpec>) -> yurt::config::ResolvedConfig {
    match (Config { version: None, build: specs }).resolve(context(), &vec![]) {
        ConfigResolution::Resolved(r) => r,
        _ => panic!("resolves"),
    }
}

fn two_kinds() -> Vec<BuildSpec> {
    vec![
        link("a", "b"),
        BuildSpec::Package(Package { name: "bat".to_string(), managers: vec![], aliases: vec![] }),
        link("c", "d"),
    ]
}

#[test]
fn include_filter() {
    let a = args(Some(vec![BuildUnitKind::Package]), None, YurtAction::Uninstall);
    let kept = a.resolve(resolved(two_kinds()));
    assert_eq!(kept.build.len(), 1);
    assert_eq!(kept.build[0].kind(), BuildUnitKind::Package);
}

#[test]
fn exclude_filter() {
    let a = args(None, Some(vec![BuildUnitKind::Package]), YurtAction::Uninstall);
    let kept = a.resolve(resolved(two_kinds()));
    assert_eq!(sources(&kept.build), vec!["a", "c"]);
}

#[test]
fn into_config_restates_units() {
    let config = resolved(two_kinds()).into_config();
    assert_eq!(config.build.len(), 3);
    assert!(matches!(config.build[1], BuildSpec::Package(_)));
    assert!(config.version.is_none());
}

#[test]
fn version_check() {
    let req = format!("={VERSION}");
    match (Config { version: Some(req.clone()), build: vec![] }).resolve(context(), &vec![]) {
        ConfigResolution::Resolved(r) => assert_eq!(r.version, Some(req)),
        _ => panic!("the program's own version is accepted"),
    }
    match (Config { version: Some("9.9.9".to_string()), build: vec![] }).resolve(context(), &vec![]) {
        ConfigResolution::Failed(ConfigError::Version { requirement }) => assert_eq!(requirement, "9.9.9"),
        _ => panic!("a mismatched version is refused"),
    }
    assert!(matches!(
        (Config { version: Some("not a version".to_string()), build: vec![] }).resolve(context(), &vec![]),
        ConfigResolution::Failed(ConfigError::Version { .. })
    ));
    assert!(matches!(
        (Config { version: Some("~0.8.0-dev".to_string()), build: vec![] }).resolve(context(), &vec![]),
        ConfigResolution::Resolved(_)
    ));
}

#[test]
fn config_source_order() {
    let env = Environment::new(vec![("YURT_BUILD_FILE".to_string(), "/env/build.yaml".to_string())]);
    let mut a = args(None, None, YurtAction::Uninstall);
    assert!(matches!(a.config_source(&env), Ok(ConfigSource::Path(p)) if p == "/env/build.yaml"));
    assert!(matches!(a.config_source(&Environment::empty()), Err(ArgsError::NoBuildFile)));
    a.file = Some("local.yaml".to_string());
    assert!(matches!(a.config_source(&env), Ok(ConfigSource::Path(p)) if p == "local.yaml"));
    a.file_url = Some("https://example.org/build.yaml".to_string());
    assert!(matches!(a.config_source(&env), Ok(ConfigSource::Url(u)) if u == "https://example.org/build.yaml"));
}

#[test]
fn root_needs_flag() {
    let mut a = args(None, None, YurtAction::Uninstall);
    assert!(a.check_user("someone").is_ok());
    assert!(matches!(a.check_user("root"), Err(ArgsError::RootNotAllowed)));
    a.root = true;
    assert!(a.check_user("root").is_ok());
}

#[test]
fn action_hooks() {
    assert!(args(None, None, YurtAction::Install { clean: false }).action_hook().unwrap().same(&Hook::Install));
    assert!(args(None, None, YurtAction::Uninstall).action_hook().unwrap().same(&Hook::Uninstall));
    assert!(args(None, None, YurtAction::Diff { base: "x".to_string() }).action_hook().is_none());
    assert!(args(None, None, YurtAction::Show { raw: false, context: false, hook: None }).action_hook().is_none());
    let custom = args(None, None, YurtAction::Hook { hook: Hook::Custom("deploy".to_string()) });
    assert!(custom.action_hook().unwrap().same(&Hook::Custom("deploy".to_string())));
}

#[test]
fn overrides_set_locale() {
    let a = args(None, None, YurtAction::Uninstall);
    let l = a.get_locale();
    assert_eq!(l.user, "u");
    assert_eq!(l.platform, "linux");
    assert_eq!(l.distro, "d");
    let c = a.get_context(Environment::empty());
    assert_eq!(c.locale.platform, "linux");
}

#[test]
fn build_version_check() {
    let mut version: Option<String> = None;
    assert!(!version_matches(&version, true));
    assert!(version_matches(&version, false));
    version = Some("9.9.9".to_string());
    assert!(!version_matches(&version, true));
    assert!(!version_matches(&version, false));
    version = Some(VERSION.to_string());
    assert!(version_matches(&version, true));
    assert!(version_matches(&version, false));
}

#[test]
fn condition_override_user() {
    let mut a = args(None, None, YurtAction::Uninstall);
    a.override_user = Some("some-other-user".to_string());
    assert_eq!(a.get_locale().user, "some-other-user");
}

#[test]
fn condition_override_distro() {
    let mut a = args(None, None, YurtAction::Uninstall);
    a.override_distro = Some("some-other-distro".to_string());
    assert_eq!(a.get_locale().distro, "some-other-distro");
}

#[test]
fn condition_override_platform() {
    let mut a = args(None, None, YurtAction::Uninstall);
    a.override_platform = Some("some-other-platform".to_string());
    assert_eq!(a.get_locale().platform, "some-other-platform");
}

#[test]
fn hook_action_keeps_its_hooks() {
    let hook = |on: Vec<Hook>, cmd: &str| {
        BuildSpec::Hook(ShellHook { on, command: ShellCommand::new(Shell::for_os("linux"), cmd.to_string()) })
    };
    let specs = || {
        vec![
            hook(vec![Hook::Install], "on install"),
            link("a", "b"),
            hook(vec![Hook::Custom("deploy".to_string())], "on deploy"),
        ]
    };
    let deploy = args(None, None, YurtAction::Hook { hook: Hook::Custom("deploy".to_string()) });
    let kept = deploy.resolve(resolved(specs()));
    assert_eq!(kept.build.len(), 2);
    assert_eq!(kept.build[0].kind(), BuildUnitKind::Link);
    match &kept.build[1] {
        BuildUnit::Hook(h) => assert_eq!(h.command.command, "on deploy"),
        _ => panic!("the deploy hook"),
    }
    let diff = args(None, None, YurtAction::Diff { base: "b.yaml".to_string() });
    assert_eq!(diff.resolve(resolved(specs())).build.len(), 3);
}

#[test]
fn check_version_answers() {
    assert!(check_version(&"^0.8".to_string(), Some(true)).is_ok());
    assert!(matches!(check_version(&"^9".to_string(), Some(false)), Err(ConfigError::Version { requirement }) if requirement == "^9"));
    assert!(check_version(&"junk".to_string(), None).is_err());
}

#[test]
fn filtering_twice_keeps_the_same() {
    let only = Some(vec![BuildUnitKind::Link]);
    let once = resolved(two_kinds()).filter(&only, &None);
    let twice = resolved(two_kinds()).filter(&only, &None).filter(&only, &None);
    assert_eq!(sources(&once.build), sources(&twice.build));
    assert_eq!(sources(&once.build), vec!["a", "c"]);
}

#[test]
fn exclude_wins_over_include() {
    let a = args(Some(vec![BuildUnitKind::Link]), Some(vec![BuildUnitKind::Link]), YurtAction::Uninstall);
    assert!(a.resolve(resolved(two_kinds())).build.is_empty());
}

#[test]
fn diff_lists_steps_missing_from_base() {
    let unit = |s: &str, t: &str| BuildUnit::Link(Link::new(s.to_string(), t.to_string()));
    let pkg = |name: &str, aliases: &[(&str, &str)]| {
        BuildUnit::Package(Package {
            name: name.to_string(),
            managers: vec!["brew".to_string()],
            aliases: aliases.iter().map(|(m, a)| (m.to_string(), a.to_string())).collect(),
        })
    };
    let current = vec![unit("a", "x"), unit("b", "y"), pkg("bat", &[("brew", "bat")]), unit("c", "z")];
    let base = vec![unit("c", "z"), unit("b", "other"), pkg("bat", &[("brew", "batcat")]), unit("a", "x")];
    assert_eq!(yurt::specs::diff::unit_diff(&current, &base), vec![1, 2]);
    assert_eq!(yurt::specs::diff::unit_diff(&current, &current), Vec::<usize>::new());
    assert_eq!(yurt::specs::diff::unit_diff(&current, &vec![]), vec![0, 1, 2, 3]);
    assert!(yurt::specs::diff::same_unit(&current[0], &base[3]));
    assert!(!yurt::specs::diff::same_unit(&current[0], &current[2]));
}

#[test]
fn nested_matrix_restores_outer_row() {
    let mut context = context();
    let inner = Matrix { values: vec![row(&[("a", "y")])], build: vec![link("${{ matrix.a }}", "t")] };
    let outer = Matrix {
        values: vec![row(&[("a", "x")])],
        build: vec![BuildSpec::Matrix(inner), link("${{ matrix.a }}", "u")],
    };
    let built = units(BuildSpec::resolve_all(&vec![BuildSpec::Matrix(outer)], &mut context, &vec![], 0));
    assert_eq!(sources(&built), vec!["y", "x"]);
    assert!(context.parse_str("${{ matrix.a }}").is_err());
}

#[test]
fn requirement_is_read_as_semver() {
    assert!(yurt::config::is_requirement("~0.8.0-dev"));
    assert!(yurt::config::is_requirement(">=1.0"));
    assert!(!yurt::config::is_requirement("not a version"));
}

#[test]
fn config_source_from_env() {
    let env = Environment::new(vec![("YURT_BUILD_FILE".to_string(), "/env/build.yaml".to_string())]);
    assert!(matches!(ConfigSource::from_env(&env), Ok(ConfigSource::Path(p)) if p == "/env/build.yaml"));
    let other = Environment::new(vec![("HOME".to_string(), "/home/me".to_string())]);
    assert!(matches!(ConfigSource::from_env(&other), Err(ArgsError::NoBuildFile)));
}
