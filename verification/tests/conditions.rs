use yurt::condition::{Case, CaseBranch, Condition as CaseCondition};
use yurt::context::{Locale, LocaleSpec};
use yurt::specs::dynamic::{Condition, Evaluation};
use yurt::specs::shell::command::{call_bool, Outcome};
use yurt::specs::shell::{Shell, ShellCommand};

fn here() -> Locale {
    Locale { user: "u".to_string(), platform: "p".to_string(), distro: "d".to_string() }
}

fn shell_command(command: &str) -> ShellCommand {
    ShellCommand::new(Shell::for_os("linux"), command.to_string())
}

fn exited(code: i32) -> Outcome {
    Outcome::Exited { code, stderr: String::new() }
}

fn value<T>(e: Evaluation<T>) -> T {
    match e {
        Evaluation::Value { value, .. } => value,
        Evaluation::Pending { .. } => panic!("evaluation is pending"),
    }
}

fn holds(c: &Condition) -> bool {
    value(c.evaluate(&here(), &vec![], 0))
}

fn spec(user: Option<&str>, platform: Option<&str>, distro: Option<&str>) -> LocaleSpec {
    LocaleSpec {
        user: user.map(String::from),
        platform: platform.map(String::from),
        distro: distro.map(String::from),
    }
}

#[test]
fn command_condition() {
    let cond = CaseCondition::Command(shell_command("echo 'hello'"));
    match cond.evaluate(&here(), &vec![], 0) {
        Evaluation::Pending { command } => {
            assert_eq!(command.command, "echo 'hello'");
            assert_eq!(command.shell.command, "sh");
        }
        Evaluation::Value { .. } => panic!("a command needs its outcome"),
    }
    let ran = call_bool(&exited(0)).unwrap();
    assert!(value(cond.evaluate(&here(), &vec![ran], 0)));

    let cond = CaseCondition::Command(shell_command("bad-command -a -b"));
    let ran = call_bool(&exited(127)).unwrap();
    assert!(!value(cond.evaluate(&here(), &vec![ran], 0)));
}

#[test]
fn bool_condition() {
    assert!(value(CaseCondition::Bool(true).evaluate(&here(), &vec![], 0)));
    assert!(!value(CaseCondition::Bool(false).evaluate(&here(), &vec![], 0)));
}

#[test]
fn locale_condition() {
    let user = CaseCondition::Locale(spec(Some("u"), None, None));
    assert!(value(user.evaluate(&here(), &vec![], 0)));
    let fake = CaseCondition::Locale(spec(None, Some("fake"), None));
    assert!(!value(fake.evaluate(&here(), &vec![], 0)));
}

#[test]
fn condition_positive_match() {
    let case = CaseBranch::Positive { condition: CaseCondition::Bool(true), build: "something" };
    assert!(value(case.evaluate(false, &here(), &vec![], 0)));
}

#[test]
fn condition_positive_non_match() {
    let case = CaseBranch::Positive { condition: CaseCondition::Bool(false), build: "something" };
    assert!(!value(case.evaluate(false, &here(), &vec![], 0)));
}

#[test]
fn condition_negative_match() {
    let case = CaseBranch::Negative { condition: CaseCondition::Bool(false), build: "something" };
    assert!(value(case.evaluate(false, &here(), &vec![], 0)));
}

#[test]
fn condition_negative_non_match() {
    let case = CaseBranch::Negative { condition: CaseCondition::Bool(true), build: "something" };
    assert!(!value(case.evaluate(false, &here(), &vec![], 0)));
}

#[test]
fn case_default_only_without_earlier_match() {
    let case = Case(vec![
        CaseBranch::Positive { condition: CaseCondition::Bool(false), build: 1 },
        CaseBranch::Default { build: 2 },
        CaseBranch::Negative { condition: CaseCondition::Bool(false), build: 3 },
        CaseBranch::Default { build: 4 },
    ]);
    assert_eq!(value(case.resolve(&here(), &vec![], 0)), vec![2, 3]);
}

#[test]
fn case_waits_for_command_outcome() {
    let branches = || {
        Case(vec![
            CaseBranch::Positive { condition: CaseCondition::Command(shell_command("true")), build: 1 },
            CaseBranch::Default { build: 2 },
        ])
    };
    assert!(matches!(branches().resolve(&here(), &vec![], 0), Evaluation::Pending { .. }));
    assert_eq!(value(branches().resolve(&here(), &vec![true], 0)), vec![1]);
    assert_eq!(value(branches().resolve(&here(), &vec![false], 0)), vec![2]);
}

#[test]
fn case_branch_unpack() {
    let case = CaseBranch::Negative { condition: CaseCondition::Bool(true), build: "inner" };
    assert_eq!(case.unpack(), "inner");
}

#[test]
fn locale() {
    let user = Condition::Locale(spec(Some("u"), None, None));
    assert!(holds(&user));
    let fake = Condition::Locale(spec(None, Some("fake"), None));
    assert!(!holds(&fake));
}

#[test]
fn eval() {
    let cond = Condition::Eval(shell_command("echo 'hello'"));
    assert!(matches!(cond.evaluate(&here(), &vec![], 0), Evaluation::Pending { .. }));
    let ran = call_bool(&exited(0)).unwrap();
    assert!(value(cond.evaluate(&here(), &vec![ran], 0)));
    let cond = Condition::Eval(shell_command("bad-command -a -b"));
    let ran = call_bool(&exited(127)).unwrap();
    assert!(!value(cond.evaluate(&here(), &vec![ran], 0)));
}

#[test]
fn bool() {
    assert!(holds(&Condition::Bool(true)));
    assert!(!holds(&Condition::Bool(false)));
}

#[test]
fn all() {
    let t = || Condition::Bool(true);
    assert!(holds(&Condition::All(vec![t(), t(), t()])));
    assert!(!holds(&Condition::All(vec![t(), t(), Condition::Bool(false)])));
}

#[test]
fn any() {
    let f = || Condition::Bool(false);
    assert!(!holds(&Condition::Any(vec![])));
    assert!(!holds(&Condition::Any(vec![f(), f(), f()])));
    assert!(holds(&Condition::Any(vec![f(), f(), Condition::Bool(true)])));
}

#[test]
fn not() {
    assert!(holds(&Condition::Not(vec![])));
    assert!(holds(&Condition::Not(vec![Condition::Bool(false)])));
    assert!(!holds(&Condition::Not(vec![Condition::Bool(true)])));
    assert!(!holds(&Condition::Not(vec![Condition::Bool(false), Condition::Bool(true)])));
}

#[test]
fn nested_commands_take_outcomes_in_order() {
    let cond = Condition::All(vec![
        Condition::Eval(shell_command("first")),
        Condition::Not(vec![Condition::Eval(shell_command("second"))]),
    ]);
    match cond.evaluate(&here(), &vec![true], 0) {
        Evaluation::Pending { command } => assert_eq!(command.command, "second"),
        Evaluation::Value { .. } => panic!("second command has no outcome yet"),
    }
    match cond.evaluate(&here(), &vec![true, false], 0) {
        Evaluation::Value { value, next } => {
            assert!(value);
            assert_eq!(next, 2);
        }
        Evaluation::Pending { .. } => panic!("both outcomes are known"),
    }
}

#[test]
fn default_condition_is_true() {
    assert!(holds(&Condition::Default));
}
