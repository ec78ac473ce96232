use yurt::context::parse::{Environment, Key, KeyError, KeyStack};
use yurt::context::{home_from, Context, Locale, LocaleSpec};

fn context_with(env: Vec<(&str, &str)>) -> Context {
    let locale = Locale::with_overrides(Some("u".to_string()), Some("p".to_string()), Some("d".to_string()));
    let vars = env.into_iter().map(|(k, v)| (k.to_string(), v.to_string())).collect();
    Context::new(locale, Environment::new(vars))
}

#[test]
fn key_var() {
    assert_eq!(Key::Var("key_1".to_string()), Key::try_from("key_1").unwrap());
}

#[test]
fn key_env_var() {
    assert_eq!(Key::EnvVar("key_1".to_string()), Key::try_from("env:key_1").unwrap());
}

#[test]
fn key_object_attr() {
    assert_eq!(
        Key::ObjectAttr { object: "obj_1".to_string(), attr: "attr_1".to_string() },
        Key::try_from("obj_1.attr_1").unwrap()
    );
}

#[test]
fn key_object_instance_attr() {
    assert_eq!(
        Key::ObjectInstanceAttr { object: "obj_1".to_string(), id: "id_1".to_string(), attr: "attr_1".to_string() },
        Key::try_from("obj_1#id_1.attr_1").unwrap()
    );
}

#[test]
fn key_invalid() {
    assert!(Key::try_from("").is_err());
    assert!(Key::try_from(" ").is_err());
    assert!(Key::try_from("key.").is_err());
    assert!(Key::try_from("key-").is_err());
    assert!(Key::try_from("{key}").is_err());
}

#[test]
fn key_surrounding_whitespace() {
    assert_eq!(Key::Var("k".to_string()), Key::try_from(" \tk  ").unwrap());
}

#[test]
fn key_get_envvar() {
    let empty = Environment::empty();
    assert!(Key::EnvVar("key".to_string()).get(&empty).is_err());
    let set = Environment::new(vec![("key".to_string(), "value".to_string())]);
    assert_eq!(Key::EnvVar("key".to_string()).get(&set).unwrap(), "value");
    assert!(matches!(Key::Var("key".to_string()).get(&set), Err(KeyError::Undefined(_))));
}

#[test]
fn key_stack_push_get_drop() {
    let mut stack = KeyStack::new();
    let key = Key::Var("k".to_string());
    assert_eq!(stack.get(&key), None);
    stack.push(key.clone(), "one".to_string());
    stack.push(Key::Var("other".to_string()), "x".to_string());
    stack.push(key.clone(), "two".to_string());
    assert_eq!(stack.get(&key).as_deref(), Some("two"));
    stack.drop(&key);
    assert_eq!(stack.get(&key).as_deref(), Some("one"));
    stack.drop(&key);
    assert_eq!(stack.get(&key), None);
    stack.drop(&key);
    assert_eq!(stack.get(&Key::Var("other".to_string())).as_deref(), Some("x"));
}

#[test]
fn key_stack_try_get_falls_back_to_environment() {
    let stack = KeyStack::new();
    let env = Environment::new(vec![("HOME".to_string(), "/home/u".to_string())]);
    assert_eq!(stack.try_get(&Key::EnvVar("HOME".to_string()), &env).unwrap(), "/home/u");
    assert!(stack.try_get(&Key::Var("HOME".to_string()), &env).is_err());
}

#[test]
fn key_stack_try_push_invalid() {
    let mut stack = KeyStack::new();
    assert!(matches!(stack.try_push("a b", "v".to_string()), Err(KeyError::Invalid(_))));
    assert!(stack.try_push("a.b", "v".to_string()).is_ok());
    assert_eq!(
        stack.get(&Key::ObjectAttr { object: "a".to_string(), attr: "b".to_string() }).as_deref(),
        Some("v")
    );
}

#[test]
fn locale_matching() {
    let locale = Locale::with_overrides(Some("u".to_string()), Some("p".to_string()), Some("d".to_string()));
    let spec = |user: Option<&str>, distro: Option<&str>, platform: Option<&str>| LocaleSpec {
        user: user.map(String::from),
        platform: platform.map(String::from),
        distro: distro.map(String::from),
    };
    let cases = [
        (spec(None, None, None), true),
        (spec(Some("u"), None, None), true),
        (spec(None, Some("d"), None), true),
        (spec(Some("u"), Some("d"), None), true),
        (spec(Some("u"), Some("d"), Some("p")), true),
        (spec(Some("_"), None, None), false),
        (spec(None, None, Some("_")), false),
        (spec(Some("u"), Some("_"), None), false),
        (spec(Some("u"), Some("d"), Some("_")), false),
    ];
    for (spec, result) in cases {
        assert_eq!(spec.matches(&locale), result);
    }
}

#[test]
fn context_override_user() {
    let locale = Locale::with_overrides(Some("yurt-test-user".to_string()), Some("p".to_string()), Some("d".to_string()));
    assert_eq!(locale.user, "yurt-test-user");
}

#[test]
fn context_override_distro() {
    let locale = Locale::with_overrides(Some("u".to_string()), Some("p".to_string()), Some("yurt-test-distro".to_string()));
    assert_eq!(locale.distro, "yurt-test-distro");
}

#[test]
fn context_override_platform() {
    let locale = Locale::with_overrides(Some("u".to_string()), Some("yurt-test-platform".to_string()), Some("d".to_string()));
    assert_eq!(locale.platform, "yurt-test-platform");
}

#[test]
fn parse_str() {
    let mut context = context_with(vec![("key", "env_value")]);
    context.variables.try_push("key", "value".to_string()).unwrap();
    context.variables.try_push("ns.key", "ns_value".to_string()).unwrap();
    assert_eq!(context.parse_str("${{ key }}").unwrap(), "value");
    assert_eq!(context.parse_str("${{ ns.key }}").unwrap(), "ns_value");
    assert_eq!(context.parse_str("${{ env:key }}").unwrap(), "env_value");
}

#[test]
fn parse_str_invalid() {
    let mut context = context_with(vec![]);
    context.variables.try_push("a.b", "value".to_string()).unwrap();
    assert!(context.parse_str("${{ a.b.c }}").is_err());
    assert!(context.parse_str("${{ . }}").is_err());
    assert!(context.parse_str("${{ a. }}").is_err());
    assert!(context.parse_str("${{ .b }}").is_err());
    assert!(context.parse_str("${{ a.c }}").is_err());
    assert!(context.parse_str("${{ b.a }}").is_err());
}

#[test]
fn parse_path() {
    let mut context = context_with(vec![]);
    context.variables.try_push("var_1", "val_1".to_string()).unwrap();
    context.variables.try_push("var_2", "val_2".to_string()).unwrap();
    assert!(!context.parse_path("~").unwrap().is_empty());
    assert_eq!(context.parse_path("${{ var_1 }}").unwrap(), "val_1");
    assert_eq!(context.parse_path("${{ var_1 }}/${{ var_2 }}").unwrap(), "val_1/val_2");
}

#[test]
fn parse_str_keeps_text_without_references() {
    let context = context_with(vec![]);
    assert_eq!(context.parse_str("literal input").unwrap(), "literal input");
    assert_eq!(context.parse_str("${ not } {{ a reference }}").unwrap(), "${ not } {{ a reference }}");
}

#[test]
fn parse_str_mixed_keys() {
    let mut context = context_with(vec![("key2", "EnvVar_key2")]);
    context.variables.try_push("key1", "Var_key1".to_string()).unwrap();
    context.variables.try_push("obj.key3", "ObjectAttr_obj.key3".to_string()).unwrap();
    context.variables.try_push("obj#id.key4", "ObjectInstanceAttr_obj#id.key4".to_string()).unwrap();
    assert_eq!(
        context.parse_str("${{ key1 }} ${{ env:key2 }} ${{ obj.key3 }} ${{ obj#id.key4 }}").unwrap(),
        "Var_key1 EnvVar_key2 ObjectAttr_obj.key3 ObjectInstanceAttr_obj#id.key4"
    );
    context.variables.try_push("key", "output".to_string()).unwrap();
    assert_eq!(context.parse_str("${{key}}").unwrap(), "output");
}

#[test]
fn locale_defaults_are_lowercase_words() {
    let locale = Locale::with_overrides(None, None, None);
    assert_eq!(locale.platform, locale.platform.to_lowercase());
    assert_eq!(locale.distro, locale.distro.to_lowercase());
    assert!(!locale.distro.contains(' '));
    let kept = Locale::with_overrides(Some("Me".to_string()), None, Some("Arch Linux".to_string()));
    assert_eq!(kept.user, "Me");
    assert_eq!(kept.distro, "Arch Linux");
}

#[test]
fn space_class_is_unicode_white_space() {
    for c in (0u32..=0x10FFFF).filter_map(char::from_u32) {
        assert_eq!(yurt::text::is_space_char(c), c.is_whitespace(), "{:?}", c);
    }
}

#[test]
fn locale_detected_from_machine_names() {
    let detected = Locale::detected("Me".to_string(), "Linux".to_string(), "Arch Linux rolling".to_string());
    assert_eq!(detected.user, "Me");
    assert_eq!(detected.platform, "linux");
    assert_eq!(detected.distro, "arch");
    let detected = Locale::detected("me".to_string(), "MacOS".to_string(), "Mac OS X 14".to_string());
    let l = Locale::with_detected(None, Some("p".to_string()), None, detected);
    assert_eq!(l.user, "me");
    assert_eq!(l.platform, "p");
    assert_eq!(l.distro, "mac");
}

#[test]
fn home_directory_from_the_system() {
    assert_eq!(home_from(Some("/home/me".to_string())), "/home/me");
    assert_eq!(home_from(None), "~");
    assert_eq!(home_from(Some(String::new())), "");
    let context = Context::with_home_dir(Locale::detected("u".to_string(), "p".to_string(), "d".to_string()), Environment::empty(), Some("/home/u".to_string()));
    assert_eq!(context.parse_path("~/.vimrc").unwrap(), "/home/u/.vimrc");
    assert_eq!(context.home_dir, "/home/u");
}

