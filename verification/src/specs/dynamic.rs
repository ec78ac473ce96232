//! Conditions, conditional cases, variables and matrices.
use vstd::prelude::*;
use crate::context::{Locale, LocaleView, LocaleSpec, locale_matches};
use crate::specs::shell::{ShellCommand, ShellCommandView};
use crate::specs::ObjectKey;
use crate::text::owned;

verus! {

/// Boolean expression deciding which branch of a [`Case`] is included.
pub enum Condition {
    /// Literal boolean.
    Bool(bool),
    /// `true` when the locale spec matches the local environment.
    Locale(LocaleSpec),
    /// `true` when the shell command exits successfully.
    Eval(ShellCommand),
    /// `true` when all inner conditions are `true`.
    All(Vec<Condition>),
    /// `true` when any inner condition is `true`.
    Any(Vec<Condition>),
    /// The negation of [`Condition::Any`].
    Not(Vec<Condition>),
    /// Always `true`.
    Default,
}

/// Progress of evaluating a condition against the outcomes of the shell
/// commands run so far.
pub enum Evaluation<T> {
    /// Evaluation finished with `value`, having used the outcomes before `next`.
    Value { value: T, next: usize },
    /// Evaluation needs the outcome of running `command` next.
    Pending { command: ShellCommand },
}

/// Spec form of an [`Evaluation`].
pub enum EvalView<T> {
    Value { value: T, next: int },
    Pending { command: ShellCommandView },
}

/// Every element of `v` is `true`.
pub open spec fn all_of(v: Seq<bool>) -> bool {
    forall|i: int| 0 <= i < v.len() ==> v[i]
}

/// Some element of `v` is `true`.
pub open spec fn any_of(v: Seq<bool>) -> bool {
    exists|i: int| 0 <= i < v.len() && v[i]
}

/// Value of `c` under `locale`, where the `Eval` commands met in
/// evaluation order take their outcomes from `outs` starting at `pos`.
/// Every inner condition is evaluated: `All`, `Any` and `Not` do not stop early.
pub open spec fn eval_condition(c: Condition, locale: LocaleView, outs: Seq<bool>, pos: int) -> EvalView<bool>
    decreases c,
{
    match c {
        Condition::Bool(b) => EvalView::Value { value: b, next: pos },
        Condition::Locale(s) => EvalView::Value { value: locale_matches(s@, locale), next: pos },
        Condition::Eval(cmd) => if 0 <= pos < outs.len() {
            EvalView::Value { value: outs[pos], next: pos + 1 }
        } else {
            EvalView::Pending { command: cmd@ }
        },
        Condition::All(cs) => match eval_conditions(cs@, locale, outs, pos) {
            EvalView::Value { value, next } => EvalView::Value { value: all_of(value), next },
            EvalView::Pending { command } => EvalView::Pending { command },
        },
        Condition::Any(cs) => match eval_conditions(cs@, locale, outs, pos) {
            EvalView::Value { value, next } => EvalView::Value { value: any_of(value), next },
            EvalView::Pending { command } => EvalView::Pending { command },
        },
        Condition::Not(cs) => match eval_conditions(cs@, locale, outs, pos) {
            EvalView::Value { value, next } => EvalView::Value { value: !any_of(value), next },
            EvalView::Pending { command } => EvalView::Pending { command },
        },
        Condition::Default => EvalView::Value { value: true, next: pos },
    }
}

/// Values of the conditions `cs`, evaluated in order.
pub open spec fn eval_conditions(cs: Seq<Condition>, locale: LocaleView, outs: Seq<bool>, pos: int) -> EvalView<Seq<bool>>
    decreases cs,
{
    if cs.len() == 0 {
        EvalView::Value { value: Seq::empty(), next: pos }
    } else {
        match eval_condition(cs[0], locale, outs, pos) {
            EvalView::Value { value, next } => match eval_conditions(cs.drop_first(), locale, outs, next) {
                EvalView::Value { value: rest, next: last } => EvalView::Value { value: seq![value] + rest, next: last },
                EvalView::Pending { command } => EvalView::Pending { command },
            },
            EvalView::Pending { command } => EvalView::Pending { command },
        }
    }
}

/// An [`Evaluation`] taken by its spec form, mapping the value with `f`.
pub open spec fn evaluation_view<T, U>(r: &Evaluation<T>, f: spec_fn(T) -> U) -> EvalView<U> {
    match r {
        Evaluation::Value { value, next } => EvalView::Value { value: f(*value), next: *next as int },
        Evaluation::Pending { command } => EvalView::Pending { command: command@ },
    }
}

proof fn lemma_eval_conditions_split(cs: Seq<Condition>, locale: LocaleView, outs: Seq<bool>, pos: int, i: int)
    requires
        0 <= i < cs.len(),
    ensures
        eval_conditions(cs.skip(i), locale, outs, pos) == match eval_condition(cs[i], locale, outs, pos) {
            EvalView::Value { value, next } => match eval_conditions(cs.skip(i + 1), locale, outs, next) {
                EvalView::Value { value: rest, next: last } => EvalView::Value { value: seq![value] + rest, next: last },
                EvalView::Pending { command } => EvalView::Pending { command },
            },
            EvalView::Pending { command } => EvalView::Pending { command },
        },
{
    assert(cs.skip(i)[0] == cs[i]);
    assert(cs.skip(i).drop_first() =~= cs.skip(i + 1));
}

impl Condition {
    /// Evaluates the condition under `locale`; the `Eval` commands met in
    /// evaluation order take their outcomes from `outs` starting at `pos`,
    /// and the first one past the end of `outs` is returned as pending.
    pub fn evaluate(&self, locale: &Locale, outs: &Vec<bool>, pos: usize) -> (r: Evaluation<bool>)
        requires
            pos <= outs@.len(),
        ensures
            evaluation_view(&r, |b: bool| b) == eval_condition(*self, locale@, outs@, pos as int),
            r matches Evaluation::Value { next, .. } ==> pos <= next <= outs@.len(),
        decreases self,
    {
        match self {
            Condition::Bool(b) => Evaluation::Value { value: *b, next: pos },
            Condition::Locale(spec) => Evaluation::Value { value: spec.matches(locale), next: pos },
            Condition::Eval(cmd) => if pos < outs.len() {
                Evaluation::Value { value: outs[pos], next: pos + 1 }
            } else {
                Evaluation::Pending { command: cmd.duplicate() }
            },
            Condition::All(cs) => match Self::evaluate_each(cs, locale, outs, pos) {
                Evaluation::Value { value, next } => {
                    let mut all = true;
                    let mut i: usize = 0;
                    while i < value.len()
                        invariant
                            i <= value@.len(),
                            all == forall|j: int| 0 <= j < i ==> value@[j],
                        decreases value@.len() - i,
                    {
                        all = all && value[i];
                        i = i + 1;
                    }
                    assert(eval_conditions(cs@, locale@, outs@, pos as int) == (EvalView::Value { value: value@, next: next as int }));
                    assert(all == all_of(value@));
                    Evaluation::Value { value: all, next }
                },
                Evaluation::Pending { command } => Evaluation::Pending { command },
            },
            Condition::Any(cs) => match Self::evaluate_each(cs, locale, outs, pos) {
                Evaluation::Value { value, next } => {
                    assert(eval_conditions(cs@, locale@, outs@, pos as int) == (EvalView::Value { value: value@, next: next as int }));
                    let a = any_true(&value);
                    Evaluation::Value { value: a, next }
                },
                Evaluation::Pending { command } => Evaluation::Pending { command },
            },
            Condition::Not(cs) => match Self::evaluate_each(cs, locale, outs, pos) {
                Evaluation::Value { value, next } => {
                    assert(eval_conditions(cs@, locale@, outs@, pos as int) == (EvalView::Value { value: value@, next: next as int }));
                    Evaluation::Value { value: !any_true(&value), next }
                },
                Evaluation::Pending { command } => Evaluation::Pending { command },
            },
            Condition::Default => Evaluation::Value { value: true, next: pos },
        }
    }

    /// Evaluates each of `cs` in order.
    fn evaluate_each(cs: &Vec<Condition>, locale: &Locale, outs: &Vec<bool>, pos: usize) -> (r: Evaluation<Vec<bool>>)
        requires
            pos <= outs@.len(),
        ensures
            evaluation_view(&r, |v: Vec<bool>| v@) == eval_conditions(cs@, locale@, outs@, pos as int),
            r matches Evaluation::Value { next, .. } ==> pos <= next <= outs@.len(),
        decreases cs,
    {
        let mut values: Vec<bool> = Vec::new();
        let mut next = pos;
        let mut i: usize = 0;
        assert(cs@.skip(0) =~= cs@);
        while i < cs.len()
            invariant
                i <= cs@.len(),
                pos <= next <= outs@.len(),
                eval_conditions(cs@, locale@, outs@, pos as int) == match eval_conditions(cs@.skip(i as int), locale@, outs@, next as int) {
                    EvalView::Value { value: rest, next: last } => EvalView::Value { value: values@ + rest, next: last },
                    EvalView::Pending { command } => EvalView::Pending { command },
                },
            decreases cs@.len() - i,
        {
            proof {
                lemma_eval_conditions_split(cs@, locale@, outs@, next as int, i as int);
            }
            match cs[i].evaluate(locale, outs, next) {
                Evaluation::Value { value, next: after } => {
                    let ghost before = values@;
                    values.push(value);
                    proof {
                        match eval_conditions(cs@.skip(i + 1), locale@, outs@, after as int) {
                            EvalView::Value { value: rest, next: last } => {
                                assert(before + (seq![value] + rest) =~= values@ + rest);
                            },
                            EvalView::Pending { .. } => {},
                        }
                    }
                    next = after;
                },
                Evaluation::Pending { command } => {
                    return Evaluation::Pending { command };
                },
            }
            i = i + 1;
        }
        assert(values@ + Seq::<bool>::empty() =~= values@);
        Evaluation::Value { value: values, next }
    }
}

/// Whether some element of `v` is `true`.
fn any_true(v: &Vec<bool>) -> (r: bool)
    ensures
        r == any_of(v@),
{
    let mut i: usize = 0;
    while i < v.len()
        invariant
            i <= v@.len(),
            forall|j: int| 0 <= j < i ==> !v@[j],
        decreases v@.len() - i,
    {
        if v[i] {
            return true;
        }
        i = i + 1;
    }
    false
}

/// One branch of a [`Case`]: `build` is taken when the value of
/// `condition` equals `when` (`true` when not given).
pub struct CaseBranch<T> {
    pub condition: Condition,
    pub when: Option<bool>,
    pub build: T,
}

/// Whether a branch whose condition has value `value` is taken.
pub open spec fn branch_taken(value: bool, when: Option<bool>) -> bool {
    value == match when {
        Some(w) => w,
        None => true,
    }
}

impl<T> CaseBranch<T> {
    /// Whether the branch is taken, evaluating its condition as [`Condition::evaluate`] does.
    pub fn evaluate(&self, locale: &Locale, outs: &Vec<bool>, pos: usize) -> (r: Evaluation<bool>)
        requires
            pos <= outs@.len(),
        ensures
            match eval_condition(self.condition, locale@, outs@, pos as int) {
                EvalView::Value { value, next } => r matches Evaluation::Value { value: v, next: n }
                    && v == branch_taken(value, self.when) && n == next,
                EvalView::Pending { command } => r matches Evaluation::Pending { command: c } && c@ == command,
            },
            r matches Evaluation::Value { next, .. } ==> pos <= next <= outs@.len(),
    {
        match self.condition.evaluate(locale, outs, pos) {
            Evaluation::Value { value, next } => {
                let when = match self.when {
                    Some(w) => w,
                    None => true,
                };
                Evaluation::Value { value: value == when, next }
            },
            Evaluation::Pending { command } => Evaluation::Pending { command },
        }
    }
}

/// Expression that includes the first matching [branch](CaseBranch).
pub struct Case<T>(pub Vec<CaseBranch<T>>);

/// Map of string substitutions, published as `vars.<key>`.
pub struct Vars(pub Vec<(String, String)>);

impl ObjectKey for Vars {
    open spec fn spec_object_name() -> Seq<char> {
        seq!['v', 'a', 'r', 's']
    }

    fn object_name() -> (r: String) {
        proof {
            reveal_strlit("vars");
            assert("vars"@ =~= seq!['v', 'a', 'r', 's']);
        }
        owned("vars")
    }
}

/// Object included once for each row of values, the row's entries being
/// published as `matrix.<key>`.
pub struct Matrix<T> {
    /// Rows of substitution mappings, each an ordered list of `(key, value)`.
    pub values: Vec<Vec<(String, String)>>,
    /// Build steps to be resolved for each row.
    pub build: T,
}

impl<T> ObjectKey for Matrix<T> {
    open spec fn spec_object_name() -> Seq<char> {
        seq!['m', 'a', 't', 'r', 'i', 'x']
    }

    fn object_name() -> (r: String) {
        proof {
            reveal_strlit("matrix");
            assert("matrix"@ =~= seq!['m', 'a', 't', 'r', 'i', 'x']);
        }
        owned("matrix")
    }
}

/// A list of `(key, value)` strings taken by its view.
pub open spec fn pairs_view(v: Vec<(String, String)>) -> Seq<(Seq<char>, Seq<char>)> {
    v@.map_values(|p: (String, String)| (p.0@, p.1@))
}

proof fn lemma_eval_conditions_len(cs: Seq<Condition>, locale: LocaleView, outs: Seq<bool>, pos: int)
    ensures
        eval_conditions(cs, locale, outs, pos) matches EvalView::Value { value, .. } ==> value.len() == cs.len(),
    decreases cs.len(),
{
    if cs.len() > 0 {
        if let EvalView::Value { next, .. } = eval_condition(cs[0], locale, outs, pos) {
            lemma_eval_conditions_len(cs.drop_first(), locale, outs, next);
        }
    }
}

/// `All`, `Any` and `Not` evaluate their inner conditions in order, one
/// value for each, and combine the values: `All` is true when every value
/// is, `Any` when some value is, `Not` when none is; so `All` of nothing is
/// true, `Any` of nothing false and `Not` of nothing true. When an inner
/// condition waits for a command, the whole condition waits for that same
/// command.
pub proof fn law_compound_conditions(cs: Vec<Condition>, locale: LocaleView, outs: Seq<bool>, pos: int)
    ensures
        match eval_conditions(cs@, locale, outs, pos) {
            EvalView::Value { value, next } => {
                &&& value.len() == cs@.len()
                &&& eval_condition(Condition::All(cs), locale, outs, pos) == (EvalView::Value { value: all_of(value), next })
                &&& eval_condition(Condition::Any(cs), locale, outs, pos) == (EvalView::Value { value: any_of(value), next })
                &&& eval_condition(Condition::Not(cs), locale, outs, pos) == (EvalView::Value { value: !any_of(value), next })
            },
            EvalView::Pending { command } => {
                &&& eval_condition(Condition::All(cs), locale, outs, pos) == EvalView::<bool>::Pending { command }
                &&& eval_condition(Condition::Any(cs), locale, outs, pos) == EvalView::<bool>::Pending { command }
                &&& eval_condition(Condition::Not(cs), locale, outs, pos) == EvalView::<bool>::Pending { command }
            },
        },
        cs@.len() == 0 ==> {
            &&& eval_condition(Condition::All(cs), locale, outs, pos) == (EvalView::Value { value: true, next: pos })
            &&& eval_condition(Condition::Any(cs), locale, outs, pos) == (EvalView::Value { value: false, next: pos })
            &&& eval_condition(Condition::Not(cs), locale, outs, pos) == (EvalView::Value { value: true, next: pos })
        },
{
    lemma_eval_conditions_len(cs@, locale, outs, pos);
}

/// `Not` is the negation of `Any` over the same conditions.
pub proof fn law_not_is_negated_any(cs: Vec<Condition>, locale: LocaleView, outs: Seq<bool>, pos: int)
    ensures
        eval_condition(Condition::Not(cs), locale, outs, pos) == match eval_condition(Condition::Any(cs), locale, outs, pos) {
            EvalView::Value { value, next } => EvalView::Value { value: !value, next },
            EvalView::Pending { command } => EvalView::Pending { command },
        },
{
}

/// `Default` behaves as `Bool(true)`.
pub proof fn law_default_is_true(locale: LocaleView, outs: Seq<bool>, pos: int)
    ensures
        eval_condition(Condition::Default, locale, outs, pos) == eval_condition(Condition::Bool(true), locale, outs, pos),
{
}

/// A condition without `Eval` commands needs no outcome and consumes none.
pub proof fn law_literals_need_no_commands(b: bool, locale: LocaleView, outs: Seq<bool>, pos: int)
    ensures
        eval_condition(Condition::Bool(b), locale, outs, pos) == (EvalView::Value::<bool> { value: b, next: pos }),
{
}

} // verus!
