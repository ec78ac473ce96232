//! Conditions on literal booleans, the locale and shell commands, and the
//! cases that choose build steps by them.
use vstd::prelude::*;
use crate::context::{Locale, LocaleView, LocaleSpec, locale_matches};
use crate::specs::shell::ShellCommand;
use crate::specs::dynamic::{Evaluation, EvalView, evaluation_view};

verus! {

/// A condition of a case branch.
pub enum Condition {
    /// Literal boolean.
    Bool(bool),
    /// `true` when the locale spec matches the local environment.
    Locale(LocaleSpec),
    /// `true` when the shell command exits successfully.
    Command(ShellCommand),
}

/// Value of `c` under `locale`; a `Command` takes its outcome from
/// `outs[pos]` and is pending when `outs` has no such entry.
pub open spec fn condition_value(c: Condition, locale: LocaleView, outs: Seq<bool>, pos: int) -> EvalView<bool> {
    match c {
        Condition::Bool(b) => EvalView::Value { value: b, next: pos },
        Condition::Locale(s) => EvalView::Value { value: locale_matches(s@, locale), next: pos },
        Condition::Command(cmd) => if 0 <= pos < outs.len() {
            EvalView::Value { value: outs[pos], next: pos + 1 }
        } else {
            EvalView::Pending { command: cmd@ }
        },
    }
}

impl Condition {
    /// Evaluates the condition under `locale`, a command taking its outcome
    /// from `outs[pos]`, or being returned as pending when there is none.
    pub fn evaluate(&self, locale: &Locale, outs: &Vec<bool>, pos: usize) -> (r: Evaluation<bool>)
        requires
            pos <= outs@.len(),
        ensures
            evaluation_view(&r, |b: bool| b) == condition_value(*self, locale@, outs@, pos as int),
            r matches Evaluation::Value { next, .. } ==> pos <= next <= outs@.len(),
    {
        match self {
            Condition::Bool(b) => Evaluation::Value { value: *b, next: pos },
            Condition::Locale(spec) => Evaluation::Value { value: spec.matches(locale), next: pos },
            Condition::Command(cmd) => if pos < outs.len() {
                Evaluation::Value { value: outs[pos], next: pos + 1 }
            } else {
                Evaluation::Pending { command: cmd.duplicate() }
            },
        }
    }
}

/// One branch of a [`Case`].
pub enum CaseBranch<T> {
    /// Taken when the condition is `true`.
    Positive { condition: Condition, build: T },
    /// Taken when the condition is `false`.
    Negative { condition: Condition, build: T },
    /// Taken when no branch before it was taken.
    Default { build: T },
}

/// Whether branch `b` is taken, `default` telling whether no branch before it was.
pub open spec fn branch_value<T>(b: CaseBranch<T>, default: bool, locale: LocaleView, outs: Seq<bool>, pos: int) -> EvalView<bool> {
    match b {
        CaseBranch::Positive { condition, .. } => condition_value(condition, locale, outs, pos),
        CaseBranch::Negative { condition, .. } => match condition_value(condition, locale, outs, pos) {
            EvalView::Value { value, next } => EvalView::Value { value: !value, next },
            EvalView::Pending { command } => EvalView::Pending { command },
        },
        CaseBranch::Default { .. } => EvalView::Value { value: default, next: pos },
    }
}

/// The build steps that branch `b` holds.
pub open spec fn branch_build<T>(b: CaseBranch<T>) -> T {
    match b {
        CaseBranch::Positive { build, .. } => build,
        CaseBranch::Negative { build, .. } => build,
        CaseBranch::Default { build } => build,
    }
}

impl<T> CaseBranch<T> {
    /// Whether the branch is taken, `default` telling whether no branch
    /// before it was taken.
    pub fn evaluate(&self, default: bool, locale: &Locale, outs: &Vec<bool>, pos: usize) -> (r: Evaluation<bool>)
        requires
            pos <= outs@.len(),
        ensures
            evaluation_view(&r, |b: bool| b) == branch_value(*self, default, locale@, outs@, pos as int),
            r matches Evaluation::Value { next, .. } ==> pos <= next <= outs@.len(),
    {
        match self {
            CaseBranch::Positive { condition, .. } => condition.evaluate(locale, outs, pos),
            CaseBranch::Negative { condition, .. } => match condition.evaluate(locale, outs, pos) {
                Evaluation::Value { value, next } => Evaluation::Value { value: !value, next },
                Evaluation::Pending { command } => Evaluation::Pending { command },
            },
            CaseBranch::Default { .. } => Evaluation::Value { value: default, next: pos },
        }
    }

    /// The build steps the branch holds.
    pub fn unpack(self) -> (r: T)
        ensures
            r == branch_build(self),
    {
        match self {
            CaseBranch::Positive { build, .. } => build,
            CaseBranch::Negative { build, .. } => build,
            CaseBranch::Default { build } => build,
        }
    }
}

/// Branches that are each tried in order; a `Default` branch is taken only
/// when no branch before it was.
pub struct Case<T>(pub Vec<CaseBranch<T>>);

/// The build steps of the branches of `bs` that are taken, in order.
pub open spec fn case_builds<T>(bs: Seq<CaseBranch<T>>, default: bool, locale: LocaleView, outs: Seq<bool>, pos: int) -> EvalView<Seq<T>>
    decreases bs.len(),
{
    if bs.len() == 0 {
        EvalView::Value { value: Seq::empty(), next: pos }
    } else {
        match branch_value(bs[0], default, locale, outs, pos) {
            EvalView::Value { value, next } => match case_builds(bs.drop_first(), default && !value, locale, outs, next) {
                EvalView::Value { value: rest, next: last } => EvalView::Value {
                    value: if value { seq![branch_build(bs[0])] + rest } else { rest },
                    next: last,
                },
                EvalView::Pending { command } => EvalView::Pending { command },
            },
            EvalView::Pending { command } => EvalView::Pending { command },
        }
    }
}

/// `taken` put before what `rest` gives.
pub open spec fn after_taken<T>(taken: Seq<T>, rest: EvalView<Seq<T>>) -> EvalView<Seq<T>> {
    match rest {
        EvalView::Value { value, next } => EvalView::Value { value: taken + value, next },
        EvalView::Pending { command } => EvalView::Pending { command },
    }
}

impl<T> Case<T> {
    /// The build steps of the branches that are taken, in order.
    pub fn resolve(self, locale: &Locale, outs: &Vec<bool>, pos: usize) -> (r: Evaluation<Vec<T>>)
        requires
            pos <= outs@.len(),
        ensures
            evaluation_view(&r, |v: Vec<T>| v@) == case_builds(self.0@, true, locale@, outs@, pos as int),
            r matches Evaluation::Value { next, .. } ==> pos <= next <= outs@.len(),
    {
        let ghost all = self.0@;
        let mut rest = self.0;
        let mut taken: Vec<T> = Vec::new();
        let mut default = true;
        let mut next = pos;
        assert(after_taken(Seq::<T>::empty(), case_builds(all, true, locale@, outs@, pos as int)) == case_builds(all, true, locale@, outs@, pos as int)) by {
            match case_builds(all, true, locale@, outs@, pos as int) {
                EvalView::Value { value, .. } => { assert(Seq::<T>::empty() + value =~= value); },
                EvalView::Pending { .. } => {},
            }
        }
        while rest.len() > 0
            invariant
                all == self.0@,
                pos <= next <= outs@.len(),
                case_builds(all, true, locale@, outs@, pos as int) == after_taken(taken@, case_builds(rest@, default, locale@, outs@, next as int)),
            decreases rest@.len(),
        {
            let ghost before = rest@;
            let branch = rest.remove(0);
            assert(before.drop_first() =~= rest@);
            match branch.evaluate(default, locale, outs, next) {
                Evaluation::Value { value, next: after } => {
                    let ghost old_taken = taken@;
                    if value {
                        taken.push(branch.unpack());
                    }
                    proof {
                        match case_builds(rest@, default && !value, locale@, outs@, after as int) {
                            EvalView::Value { value: tail, .. } => {
                                if value {
                                    assert(old_taken + (seq![branch_build(before[0])] + tail) =~= taken@ + tail);
                                } else {
                                    assert(old_taken =~= taken@);
                                }
                            },
                            EvalView::Pending { .. } => {},
                        }
                    }
                    default = default && !value;
                    next = after;
                },
                Evaluation::Pending { command } => {
                    assert(case_builds(before, default, locale@, outs@, next as int) == (EvalView::Pending::<Seq<T>> { command: command@ }));
                    return Evaluation::Pending { command };
                },
            }
        }
        assert(taken@ + Seq::<T>::empty() =~= taken@);
        Evaluation::Value { value: taken, next }
    }
}

/// A `Default` branch first in a case is always taken.
pub proof fn law_leading_default_is_taken<T>(build: T, locale: LocaleView, outs: Seq<bool>, pos: int)
    ensures
        branch_value(CaseBranch::Default { build }, true, locale, outs, pos) == (EvalView::Value::<bool> { value: true, next: pos }),
{
}

/// Once a branch is taken, no later `Default` branch is.
pub proof fn law_default_after_match_is_skipped<T>(build: T, locale: LocaleView, outs: Seq<bool>, pos: int)
    ensures
        branch_value(CaseBranch::Default { build }, false, locale, outs, pos) == (EvalView::Value::<bool> { value: false, next: pos }),
{
}

/// A `Positive` branch is taken when its condition holds and a `Negative`
/// branch when it does not; a `Default` branch after them is taken exactly
/// when they were not. So a case of a conditional branch and a default
/// gives the conditional branch's build or the default's, never both.
pub proof fn law_default_only_without_taken_branch<T>(c: Condition, a: T, d: T, locale: LocaleView, outs: Seq<bool>, pos: int)
    ensures
        match condition_value(c, locale, outs, pos) {
            EvalView::Value { value, next } => {
                &&& case_builds(seq![CaseBranch::Positive { condition: c, build: a }, CaseBranch::Default { build: d }], true, locale, outs, pos)
                    == (EvalView::Value { value: if value { seq![a] } else { seq![d] }, next })
                &&& case_builds(seq![CaseBranch::Negative { condition: c, build: a }, CaseBranch::Default { build: d }], true, locale, outs, pos)
                    == (EvalView::Value { value: if value { seq![d] } else { seq![a] }, next })
            },
            EvalView::Pending { command } => {
                &&& case_builds(seq![CaseBranch::Positive { condition: c, build: a }, CaseBranch::Default { build: d }], true, locale, outs, pos)
                    == EvalView::<Seq<T>>::Pending { command }
                &&& case_builds(seq![CaseBranch::Negative { condition: c, build: a }, CaseBranch::Default { build: d }], true, locale, outs, pos)
                    == EvalView::<Seq<T>>::Pending { command }
            },
        },
{
    let pos_case = seq![CaseBranch::Positive { condition: c, build: a }, CaseBranch::Default { build: d }];
    let neg_case = seq![CaseBranch::Negative { condition: c, build: a }, CaseBranch::Default { build: d }];
    let dflt = seq![CaseBranch::<T>::Default { build: d }];
    assert(pos_case.drop_first() =~= dflt);
    assert(neg_case.drop_first() =~= dflt);
    assert(dflt.drop_first() =~= Seq::<CaseBranch<T>>::empty());
    assert(pos_case[0] == CaseBranch::Positive { condition: c, build: a });
    assert(neg_case[0] == CaseBranch::Negative { condition: c, build: a });
    assert(dflt[0] == CaseBranch::<T>::Default { build: d });
    if let EvalView::Value { value, next } = condition_value(c, locale, outs, pos) {
        assert(case_builds(Seq::<CaseBranch<T>>::empty(), false, locale, outs, next) == EvalView::Value { value: Seq::<T>::empty(), next });
        assert(case_builds(Seq::<CaseBranch<T>>::empty(), true, locale, outs, next) == EvalView::Value { value: Seq::<T>::empty(), next });
        assert(seq![a] + Seq::<T>::empty() =~= seq![a]);
        assert(seq![d] + Seq::<T>::empty() =~= seq![d]);
        assert(branch_value(dflt[0], true, locale, outs, next) == EvalView::Value { value: true, next });
        assert(branch_value(dflt[0], false, locale, outs, next) == EvalView::Value { value: false, next });
        assert(case_builds(dflt, true, locale, outs, next) == EvalView::Value { value: seq![d], next });
        assert(case_builds(dflt, false, locale, outs, next) == EvalView::Value { value: Seq::<T>::empty(), next });
    }
}

} // verus!
