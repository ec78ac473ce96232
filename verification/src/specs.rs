//! Build specifications and the units they resolve into.
pub mod shell;
pub mod package;
pub mod dynamic;
pub mod link;
pub mod repo;
pub mod diff;

use vstd::prelude::*;
use crate::context::parse::{
    Key, KeyView, KeyError, KeyErrorView, substitution, stack_drop, stack_get, stack_of, last_index, law_get_after_push,
    law_push_keeps_other_keys, law_get_is_top_of_stack, lemma_stack_of_push, lemma_stack_of_drop,
};
use crate::context::{
    Context, ContextState, LocaleView, state_of, state_lookup, vars_lookup, lemma_context_lookup,
    entries_insert, entry_names, expand_home,
};
use crate::specs::dynamic::{
    Condition, CaseBranch, Case, Vars, Matrix, Evaluation, EvalView, eval_condition, branch_taken, pairs_view,
};
use crate::specs::repo::{Repo, RepoView, RepoError, RepoErrorView, repo_resolution, repo_keys, repo_name, path_attr, url_attr};
use crate::specs::link::{Link, LinkView};
use crate::specs::shell::{ShellHook, ShellHookView, ShellCommand, ShellCommandView};
use crate::specs::package::{Package, PackageView, PackageManager, PackageManagerView};
use crate::text::copy_string;

verus! {

/// Types whose values are published under `object.attr` keys.
pub trait ObjectKey {
    /// The object name of the keys.
    spec fn spec_object_name() -> Seq<char>;

    /// Computes [`ObjectKey::spec_object_name`].
    fn object_name() -> (r: String)
        ensures
            r@ == Self::spec_object_name();

    /// The key `object.attr`.
    fn object_key(attr: String) -> (k: Key)
        ensures
            k@ == (KeyView::ObjectAttr { object: Self::spec_object_name(), attr: attr@ }),
    {
        Key::ObjectAttr { object: Self::object_name(), attr }
    }

    /// The key `object#id.attr`.
    fn object_instance_key(attr: String, id: String) -> (k: Key)
        ensures
            k@ == (KeyView::ObjectInstanceAttr { object: Self::spec_object_name(), id: id@, attr: attr@ }),
    {
        Key::ObjectInstanceAttr { object: Self::object_name(), id, attr }
    }
}

/// Kind of a [`BuildUnit`].
#[derive(PartialEq, Eq, Structural, Copy, Clone, Debug)]
pub enum BuildUnitKind {
    Repo,
    Link,
    Hook,
    Package,
    PackageManager,
}

/// Single resolved build step.
pub enum BuildUnit {
    Repo(Repo),
    Link(Link),
    Hook(ShellHook),
    Package(Package),
    PackageManager(PackageManager),
}

/// Mathematical form of a [`BuildUnit`].
pub enum BuildUnitView {
    Repo(RepoView),
    Link(LinkView),
    Hook(ShellHookView),
    Package(PackageView),
    PackageManager(PackageManagerView),
}

impl View for BuildUnit {
    type V = BuildUnitView;

    open spec fn view(&self) -> BuildUnitView {
        match self {
            BuildUnit::Repo(x) => BuildUnitView::Repo(x@),
            BuildUnit::Link(x) => BuildUnitView::Link(x@),
            BuildUnit::Hook(x) => BuildUnitView::Hook(x@),
            BuildUnit::Package(x) => BuildUnitView::Package(x@),
            BuildUnit::PackageManager(x) => BuildUnitView::PackageManager(x@),
        }
    }
}

/// Kind of a build unit.
pub open spec fn unit_kind(u: BuildUnitView) -> BuildUnitKind {
    match u {
        BuildUnitView::Repo(_) => BuildUnitKind::Repo,
        BuildUnitView::Link(_) => BuildUnitKind::Link,
        BuildUnitView::Hook(_) => BuildUnitKind::Hook,
        BuildUnitView::Package(_) => BuildUnitKind::Package,
        BuildUnitView::PackageManager(_) => BuildUnitKind::PackageManager,
    }
}

impl BuildUnit {
    /// Kind of the unit.
    pub fn kind(&self) -> (r: BuildUnitKind)
        ensures
            r == unit_kind(self@),
    {
        match self {
            BuildUnit::Repo(_) => BuildUnitKind::Repo,
            BuildUnit::Link(_) => BuildUnitKind::Link,
            BuildUnit::Hook(_) => BuildUnitKind::Hook,
            BuildUnit::Package(_) => BuildUnitKind::Package,
            BuildUnit::PackageManager(_) => BuildUnitKind::PackageManager,
        }
    }

    /// Whether the unit's kind is one of `units`.
    pub fn included_in(&self, units: &[BuildUnitKind]) -> (r: bool)
        ensures
            r == units@.contains(unit_kind(self@)),
    {
        let k = self.kind();
        let mut i: usize = 0;
        while i < units.len()
            invariant
                i <= units@.len(),
                k == unit_kind(self@),
                forall|j: int| 0 <= j < i ==> units@[j] != k,
            decreases units@.len() - i,
        {
            if units[i] == k {
                assert(units@[i as int] == k);
                return true;
            }
            i = i + 1;
        }
        false
    }
}

/// Supported build specifiers.
pub enum BuildSpec {
    Vars(Vars),
    Case(Case<Vec<BuildSpec>>),
    Matrix(Matrix<Vec<BuildSpec>>),
    Repo(Repo),
    Link(Link),
    Hook(ShellHook),
    Package(Package),
    PackageManager(PackageManager),
}

/// Why a build could not be resolved.
#[derive(Debug)]
pub enum ResolveError {
    /// A reference could not be substituted.
    Key(KeyError),
    /// A repository could not be resolved.
    Repo(RepoError),
    /// A matrix has no rows.
    EmptyMatrix,
}

/// Spec form of a [`ResolveError`].
pub enum ResolveErrorView {
    Key(KeyErrorView),
    Repo(RepoErrorView),
    EmptyMatrix,
}

impl View for ResolveError {
    type V = ResolveErrorView;

    open spec fn view(&self) -> ResolveErrorView {
        match self {
            ResolveError::Key(e) => ResolveErrorView::Key(e@),
            ResolveError::Repo(e) => ResolveErrorView::Repo(e@),
            ResolveError::EmptyMatrix => ResolveErrorView::EmptyMatrix,
        }
    }
}

/// Progress of resolving build specifications.
pub enum Resolution {
    /// Resolution finished with `units`, having used the command outcomes before `next`.
    Done { units: Vec<BuildUnit>, next: usize },
    /// Resolution needs the outcome of running `command` next.
    Pending { command: ShellCommand },
    /// Resolution failed.
    Failed { error: ResolveError },
}

/// Spec form of a [`Resolution`], with the state reached: when it is done,
/// when it waits for a command, and when it fails.
pub enum ResolutionView {
    Done { units: Seq<BuildUnitView>, state: ContextState, next: int },
    Pending { command: ShellCommandView, state: ContextState },
    Failed { error: ResolveErrorView, state: ContextState },
}

/// A resolution taken by its spec form, `st` being the state reached.
pub open spec fn resolution_view(r: &Resolution, st: ContextState) -> ResolutionView {
    match r {
        Resolution::Done { units, next } => ResolutionView::Done {
            units: units@.map_values(|u: BuildUnit| u@),
            state: st,
            next: *next as int,
        },
        Resolution::Pending { command } => ResolutionView::Pending { command: command@, state: st },
        Resolution::Failed { error } => ResolutionView::Failed { error: error@, state: st },
    }
}

/// `units` placed before the units of a finished resolution.
pub open spec fn after_units(units: Seq<BuildUnitView>, r: ResolutionView) -> ResolutionView {
    match r {
        ResolutionView::Done { units: rest, state, next } => ResolutionView::Done { units: units + rest, state, next },
        other => other,
    }
}

/// The variables after publishing each `(key, value)` of `pairs` as `vars.<key>`.
pub open spec fn push_vars(vars: Seq<(KeyView, Seq<char>)>, pairs: Seq<(Seq<char>, Seq<char>)>) -> Seq<(KeyView, Seq<char>)>
    decreases pairs.len(),
{
    if pairs.len() == 0 {
        vars
    } else {
        push_vars(
            vars.push((KeyView::ObjectAttr { object: seq!['v', 'a', 'r', 's'], attr: pairs[0].0 }, pairs[0].1)),
            pairs.drop_first(),
        )
    }
}

/// The key `matrix.<attr>`.
pub open spec fn matrix_key(attr: Seq<char>) -> KeyView {
    KeyView::ObjectAttr { object: seq!['m', 'a', 't', 'r', 'i', 'x'], attr }
}

/// The variables after publishing a matrix row: each value is substituted
/// (seeing the entries of the row published before it) and pushed as
/// `matrix.<key>`; the first failing substitution fails the row.
pub open spec fn push_row(
    vars: Seq<(KeyView, Seq<char>)>,
    env: Seq<(Seq<char>, Seq<char>)>,
    pairs: Seq<(Seq<char>, Seq<char>)>,
) -> Result<Seq<(KeyView, Seq<char>)>, KeyErrorView>
    decreases pairs.len(),
{
    if pairs.len() == 0 {
        Ok(vars)
    } else {
        match substitution(vars_lookup(vars, env), pairs[0].1, 0) {
            Ok(v) => push_row(vars.push((matrix_key(pairs[0].0), v)), env, pairs.drop_first()),
            Err(e) => Err(e),
        }
    }
}

/// The variables once a matrix row is published as far as it goes: up to
/// the first value that cannot be substituted, or the whole row.
pub open spec fn row_pushed(
    vars: Seq<(KeyView, Seq<char>)>,
    env: Seq<(Seq<char>, Seq<char>)>,
    pairs: Seq<(Seq<char>, Seq<char>)>,
) -> Seq<(KeyView, Seq<char>)>
    decreases pairs.len(),
{
    if pairs.len() == 0 {
        vars
    } else {
        match substitution(vars_lookup(vars, env), pairs[0].1, 0) {
            Ok(v) => row_pushed(vars.push((matrix_key(pairs[0].0), v)), env, pairs.drop_first()),
            Err(_) => vars,
        }
    }
}

/// The variables after dropping `matrix.<key>` for each key of a row, in order.
pub open spec fn drop_row(vars: Seq<(KeyView, Seq<char>)>, pairs: Seq<(Seq<char>, Seq<char>)>) -> Seq<(KeyView, Seq<char>)>
    decreases pairs.len(),
{
    if pairs.len() == 0 {
        vars
    } else {
        drop_row(stack_drop(vars, matrix_key(pairs[0].0)), pairs.drop_first())
    }
}

/// Resolution of `specs` in order from state `st`, the `Eval` commands
/// taking their outcomes from `outs` starting at `pos`; units are
/// concatenated in order and each step sees the state left by the previous one.
pub open spec fn resolve_specs(specs: Seq<BuildSpec>, st: ContextState, outs: Seq<bool>, pos: int) -> ResolutionView
    decreases specs, 0int,
{
    if specs.len() == 0 {
        ResolutionView::Done { units: Seq::empty(), state: st, next: pos }
    } else {
        match resolve_spec(specs[0], st, outs, pos) {
            ResolutionView::Done { units, state, next } => after_units(units, resolve_specs(specs.drop_first(), state, outs, next)),
            other => other,
        }
    }
}

/// Resolution of a single specification (see [`resolve_specs`]).
pub open spec fn resolve_spec(spec: BuildSpec, st: ContextState, outs: Seq<bool>, pos: int) -> ResolutionView
    decreases spec, 0int,
{
    match spec {
        BuildSpec::Vars(v) => ResolutionView::Done {
            units: Seq::empty(),
            state: ContextState { variables: push_vars(st.variables, pairs_view(v.0)), ..st },
            next: pos,
        },
        BuildSpec::Case(c) => resolve_branches(c.0@, st, outs, pos),
        BuildSpec::Matrix(m) => if m.values@.len() == 0 {
            ResolutionView::Failed { error: ResolveErrorView::EmptyMatrix, state: st }
        } else {
            resolve_rows(m.build@, m.values@, st, outs, pos)
        },
        BuildSpec::Repo(r) => match repo_resolution(r@, st) {
            Ok((repo, vars)) => ResolutionView::Done {
                units: seq![BuildUnitView::Repo(repo)],
                state: ContextState { variables: vars, ..st },
                next: pos,
            },
            Err(e) => ResolutionView::Failed { error: ResolveErrorView::Repo(e), state: st },
        },
        BuildSpec::Link(l) => match expand_home(substitution(state_lookup(st), l@.source, 0), st.home) {
            Err(e) => ResolutionView::Failed { error: ResolveErrorView::Key(e), state: st },
            Ok(source) => match expand_home(substitution(state_lookup(st), l@.target, 0), st.home) {
                Err(e) => ResolutionView::Failed { error: ResolveErrorView::Key(e), state: st },
                Ok(target) => ResolutionView::Done {
                    units: seq![BuildUnitView::Link(LinkView { source, target })],
                    state: st,
                    next: pos,
                },
            },
        },
        BuildSpec::Hook(h) => match substitution(state_lookup(st), h@.command.command, 0) {
            Err(e) => ResolutionView::Failed { error: ResolveErrorView::Key(e), state: st },
            Ok(command) => ResolutionView::Done {
                units: seq![BuildUnitView::Hook(ShellHookView { command: ShellCommandView { command, ..h@.command }, ..h@ })],
                state: st,
                next: pos,
            },
        },
        BuildSpec::Package(p) => match substitution(state_lookup(st), p@.name, 0) {
            Err(e) => ResolutionView::Failed { error: ResolveErrorView::Key(e), state: st },
            Ok(name) => ResolutionView::Done {
                units: seq![BuildUnitView::Package(PackageView {
                    name,
                    managers: if p@.managers.len() == 0 {
                        entry_names(st.managers)
                    } else {
                        p@.managers.filter(|m: Seq<char>| entry_names(st.managers).contains(m))
                    },
                    aliases: p@.aliases,
                })],
                state: st,
                next: pos,
            },
        },
        BuildSpec::PackageManager(m) => ResolutionView::Done {
            units: seq![BuildUnitView::PackageManager(m@)],
            state: ContextState { managers: entries_insert(st.managers, m@.name, m@), ..st },
            next: pos,
        },
    }
}

/// Resolution of the first branch whose condition gives the wanted value;
/// nothing when no branch is taken.
pub open spec fn resolve_branches(
    branches: Seq<CaseBranch<Vec<BuildSpec>>>,
    st: ContextState,
    outs: Seq<bool>,
    pos: int,
) -> ResolutionView
    decreases branches, 0int,
{
    if branches.len() == 0 {
        ResolutionView::Done { units: Seq::empty(), state: st, next: pos }
    } else {
        match eval_condition(branches[0].condition, st.locale, outs, pos) {
            EvalView::Pending { command } => ResolutionView::Pending { command, state: st },
            EvalView::Value { value, next } => if branch_taken(value, branches[0].when) {
                resolve_specs(branches[0].build@, st, outs, next)
            } else {
                resolve_branches(branches.drop_first(), st, outs, next)
            },
        }
    }
}

/// Resolution of `build` once per row of `rows`, with the row published as
/// `matrix.<key>` variables while it is resolved and dropped afterwards.
pub open spec fn resolve_rows(
    build: Seq<BuildSpec>,
    rows: Seq<Vec<(String, String)>>,
    st: ContextState,
    outs: Seq<bool>,
    pos: int,
) -> ResolutionView
    decreases build, rows.len(),
{
    if rows.len() == 0 {
        ResolutionView::Done { units: Seq::empty(), state: st, next: pos }
    } else {
        match push_row(st.variables, st.environment, pairs_view(rows[0])) {
            Err(e) => ResolutionView::Failed {
                error: ResolveErrorView::Key(e),
                state: ContextState { variables: row_pushed(st.variables, st.environment, pairs_view(rows[0])), ..st },
            },
            Ok(vars) => match resolve_specs(build, ContextState { variables: vars, ..st }, outs, pos) {
                ResolutionView::Done { units, state, next } => after_units(
                    units,
                    resolve_rows(
                        build,
                        rows.drop_first(),
                        ContextState { variables: drop_row(state.variables, pairs_view(rows[0])), ..state },
                        outs,
                        next,
                    ),
                ),
                other => other,
            },
        }
    }
}

proof fn lemma_specs_step(specs: Seq<BuildSpec>, i: int, st: ContextState, outs: Seq<bool>, pos: int)
    requires
        0 <= i < specs.len(),
    ensures
        resolve_specs(specs.skip(i), st, outs, pos) == match resolve_spec(specs[i], st, outs, pos) {
            ResolutionView::Done { units, state, next } => after_units(units, resolve_specs(specs.skip(i + 1), state, outs, next)),
            other => other,
        },
{
    assert(specs.skip(i)[0] == specs[i]);
    assert(specs.skip(i).drop_first() =~= specs.skip(i + 1));
}

proof fn lemma_after_units_assoc(a: Seq<BuildUnitView>, b: Seq<BuildUnitView>, r: ResolutionView)
    ensures
        after_units(a, after_units(b, r)) == after_units(a + b, r),
{
    match r {
        ResolutionView::Done { units, state, next } => {
            assert(a + (b + units) =~= (a + b) + units);
        },
        _ => {},
    }
}

proof fn lemma_after_units_empty(r: ResolutionView)
    ensures
        after_units(Seq::empty(), r) == r,
{
    match r {
        ResolutionView::Done { units, state, next } => {
            assert(Seq::<BuildUnitView>::empty() + units =~= units);
        },
        _ => {},
    }
}

/// Units taken by their views.
pub open spec fn units_view(units: Seq<BuildUnit>) -> Seq<BuildUnitView> {
    units.map_values(|u: BuildUnit| u@)
}

fn publish_vars(pairs: &Vec<(String, String)>, context: &mut Context)
    ensures
        state_of(final(context)) == (ContextState {
            variables: push_vars(old(context).variables@, pairs_view(*pairs)),
            ..state_of(old(context))
        }),
{
    let ghost all = pairs_view(*pairs);
    let mut i: usize = 0;
    assert(all.skip(0) =~= all);
    while i < pairs.len()
        invariant
            i <= pairs@.len(),
            all == pairs_view(*pairs),
            push_vars(old(context).variables@, all) == push_vars(context.variables@, all.skip(i as int)),
            state_of(context) == (ContextState { variables: context.variables@, ..state_of(old(context)) }),
        decreases pairs@.len() - i,
    {
        assert(all.skip(i as int)[0] == all[i as int]);
        assert(all.skip(i as int).drop_first() =~= all.skip(i + 1));
        let key = Vars::object_key(copy_string(&pairs[i].0));
        context.variables.push(key, copy_string(&pairs[i].1));
        i = i + 1;
    }
}

fn publish_row(row: &Vec<(String, String)>, context: &mut Context) -> (r: Result<(), KeyError>)
    ensures
        match push_row(old(context).variables@, old(context).environment@, pairs_view(*row)) {
            Ok(vars) => r is Ok && state_of(final(context)) == (ContextState { variables: vars, ..state_of(old(context)) }),
            Err(e) => r matches Err(x) && x@ == e && state_of(final(context)) == (ContextState {
                variables: row_pushed(old(context).variables@, old(context).environment@, pairs_view(*row)),
                ..state_of(old(context))
            }),
        },
{
    let ghost all = pairs_view(*row);
    let ghost env = old(context).environment@;
    let mut i: usize = 0;
    assert(all.skip(0) =~= all);
    while i < row.len()
        invariant
            i <= row@.len(),
            all == pairs_view(*row),
            env == context.environment@,
            push_row(old(context).variables@, env, all) == push_row(context.variables@, env, all.skip(i as int)),
            row_pushed(old(context).variables@, env, all) == row_pushed(context.variables@, env, all.skip(i as int)),
            state_of(context) == (ContextState { variables: context.variables@, ..state_of(old(context)) }),
        decreases row@.len() - i,
    {
        assert(all.skip(i as int)[0] == all[i as int]);
        assert(all.skip(i as int).drop_first() =~= all.skip(i + 1));
        proof {
            lemma_context_lookup(context);
        }
        let value = match context.parse_str(row[i].1.as_str()) {
            Ok(v) => v,
            Err(e) => return Err(e),
        };
        let key = Matrix::<Vec<BuildSpec>>::object_key(copy_string(&row[i].0));
        context.variables.push(key, value);
        i = i + 1;
    }
    Ok(())
}

fn withdraw_row(row: &Vec<(String, String)>, context: &mut Context)
    ensures
        state_of(final(context)) == (ContextState {
            variables: drop_row(old(context).variables@, pairs_view(*row)),
            ..state_of(old(context))
        }),
{
    let ghost all = pairs_view(*row);
    let mut i: usize = 0;
    assert(all.skip(0) =~= all);
    while i < row.len()
        invariant
            i <= row@.len(),
            all == pairs_view(*row),
            drop_row(old(context).variables@, all) == drop_row(context.variables@, all.skip(i as int)),
            state_of(context) == (ContextState { variables: context.variables@, ..state_of(old(context)) }),
        decreases row@.len() - i,
    {
        assert(all.skip(i as int)[0] == all[i as int]);
        assert(all.skip(i as int).drop_first() =~= all.skip(i + 1));
        let key = Matrix::<Vec<BuildSpec>>::object_key(copy_string(&row[i].0));
        context.variables.drop(&key);
        i = i + 1;
    }
}

impl BuildSpec {
    /// Resolves `specs` in order (see [`resolve_specs`]).
    pub fn resolve_all(specs: &Vec<BuildSpec>, context: &mut Context, outs: &Vec<bool>, pos: usize) -> (r: Resolution)
        requires
            pos <= outs@.len(),
        ensures
            resolution_view(&r, state_of(final(context))) == resolve_specs(specs@, state_of(old(context)), outs@, pos as int),
            r matches Resolution::Done { next, .. } ==> pos <= next <= outs@.len(),
        decreases specs, 0int,
    {
        let mut units: Vec<BuildUnit> = Vec::new();
        let mut cur = pos;
        let mut i: usize = 0;
        proof {
            assert(specs@.skip(0) =~= specs@);
            lemma_after_units_empty(resolve_specs(specs@, state_of(context), outs@, pos as int));
        }
        while i < specs.len()
            invariant
                i <= specs@.len(),
                pos <= cur <= outs@.len(),
                resolve_specs(specs@, state_of(old(context)), outs@, pos as int)
                    == after_units(units_view(units@), resolve_specs(specs@.skip(i as int), state_of(context), outs@, cur as int)),
            decreases specs@.len() - i,
        {
            proof {
                lemma_specs_step(specs@, i as int, state_of(context), outs@, cur as int);
            }
            match specs[i].resolve(context, outs, cur) {
                Resolution::Done { units: mut more, next } => {
                    proof {
                        lemma_after_units_assoc(units_view(units@), units_view(more@),
                            resolve_specs(specs@.skip(i + 1), state_of(context), outs@, next as int));
                    }
                    let ghost before = units@;
                    let ghost added = more@;
                    units.append(&mut more);
                    assert(units_view(units@) =~= units_view(before) + units_view(added));
                    cur = next;
                },
                Resolution::Pending { command } => return Resolution::Pending { command },
                Resolution::Failed { error } => return Resolution::Failed { error },
            }
            i = i + 1;
        }
        proof {
            assert(units_view(units@) + Seq::<BuildUnitView>::empty() =~= units_view(units@));
        }
        Resolution::Done { units, next: cur }
    }

    /// Resolves one specification (see [`resolve_spec`]).
    pub fn resolve(&self, context: &mut Context, outs: &Vec<bool>, pos: usize) -> (r: Resolution)
        requires
            pos <= outs@.len(),
        ensures
            resolution_view(&r, state_of(final(context))) == resolve_spec(*self, state_of(old(context)), outs@, pos as int),
            r matches Resolution::Done { next, .. } ==> pos <= next <= outs@.len(),
        decreases self, 0int,
    {
        proof {
            lemma_context_lookup(context);
        }
        match self {
            BuildSpec::Vars(v) => {
                publish_vars(&v.0, context);
                let r = Resolution::Done { units: Vec::new(), next: pos };
                assert(units_view(Seq::<BuildUnit>::empty()) =~= Seq::<BuildUnitView>::empty());
                r
            },
            BuildSpec::Case(c) => Self::resolve_branches(&c.0, context, outs, pos),
            BuildSpec::Matrix(m) => {
                if m.values.len() == 0 {
                    Resolution::Failed { error: ResolveError::EmptyMatrix }
                } else {
                    Self::resolve_rows(&m.build, &m.values, context, outs, pos)
                }
            },
            BuildSpec::Repo(repo) => match repo.resolve(context) {
                Ok(x) => {
                    let mut units = Vec::new();
                    units.push(BuildUnit::Repo(x));
                    assert(units_view(units@) =~= seq![units@[0]@]);
                    Resolution::Done { units, next: pos }
                },
                Err(e) => Resolution::Failed { error: ResolveError::Repo(e) },
            },
            BuildSpec::Link(l) => match l.resolve(context) {
                Ok(x) => {
                    let mut units = Vec::new();
                    units.push(BuildUnit::Link(x));
                    assert(units_view(units@) =~= seq![units@[0]@]);
                    Resolution::Done { units, next: pos }
                },
                Err(e) => Resolution::Failed { error: ResolveError::Key(e) },
            },
            BuildSpec::Hook(h) => match context.parse_str(h.command.command.as_str()) {
                Ok(command) => {
                    let on = copy_hooks(&h.on);
                    let hook = ShellHook { on, command: ShellCommand { shell: h.command.shell.duplicate(), command } };
                    let mut units = Vec::new();
                    units.push(BuildUnit::Hook(hook));
                    assert(units_view(units@) =~= seq![units@[0]@]);
                    Resolution::Done { units, next: pos }
                },
                Err(e) => Resolution::Failed { error: ResolveError::Key(e) },
            },
            BuildSpec::Package(p) => match p.duplicate().resolve(context) {
                Ok(x) => {
                    let mut units = Vec::new();
                    units.push(BuildUnit::Package(x));
                    assert(units_view(units@) =~= seq![units@[0]@]);
                    Resolution::Done { units, next: pos }
                },
                Err(e) => Resolution::Failed { error: ResolveError::Key(e) },
            },
            BuildSpec::PackageManager(m) => {
                let x = m.duplicate().resolve(context);
                let mut units = Vec::new();
                units.push(BuildUnit::PackageManager(x));
                assert(units_view(units@) =~= seq![units@[0]@]);
                Resolution::Done { units, next: pos }
            },
        }
    }

    fn resolve_branches(
        branches: &Vec<CaseBranch<Vec<BuildSpec>>>,
        context: &mut Context,
        outs: &Vec<bool>,
        pos: usize,
    ) -> (r: Resolution)
        requires
            pos <= outs@.len(),
        ensures
            resolution_view(&r, state_of(final(context))) == resolve_branches(branches@, state_of(old(context)), outs@, pos as int),
            r matches Resolution::Done { next, .. } ==> pos <= next <= outs@.len(),
        decreases branches, 0int,
    {
        let mut cur = pos;
        let mut i: usize = 0;
        assert(branches@.skip(0) =~= branches@);
        while i < branches.len()
            invariant
                i <= branches@.len(),
                pos <= cur <= outs@.len(),
                state_of(context) == state_of(old(context)),
                resolve_branches(branches@, state_of(old(context)), outs@, pos as int)
                    == resolve_branches(branches@.skip(i as int), state_of(context), outs@, cur as int),
            decreases branches@.len() - i,
        {
            assert(branches@.skip(i as int)[0] == branches@[i as int]);
            assert(branches@.skip(i as int).drop_first() =~= branches@.skip(i + 1));
            match branches[i].evaluate(&context.locale, outs, cur) {
                Evaluation::Pending { command } => return Resolution::Pending { command },
                Evaluation::Value { value, next } => {
                    if value {
                        return Self::resolve_all(&branches[i].build, context, outs, next);
                    }
                    cur = next;
                },
            }
            i = i + 1;
        }
        let r = Resolution::Done { units: Vec::new(), next: cur };
        assert(units_view(Seq::<BuildUnit>::empty()) =~= Seq::<BuildUnitView>::empty());
        r
    }

    fn resolve_rows(
        build: &Vec<BuildSpec>,
        rows: &Vec<Vec<(String, String)>>,
        context: &mut Context,
        outs: &Vec<bool>,
        pos: usize,
    ) -> (r: Resolution)
        requires
            pos <= outs@.len(),
        ensures
            resolution_view(&r, state_of(final(context))) == resolve_rows(build@, rows@, state_of(old(context)), outs@, pos as int),
            r matches Resolution::Done { next, .. } ==> pos <= next <= outs@.len(),
        decreases build, 1int,
    {
        let mut units: Vec<BuildUnit> = Vec::new();
        let mut cur = pos;
        let mut i: usize = 0;
        proof {
            assert(rows@.skip(0) =~= rows@);
            lemma_after_units_empty(resolve_rows(build@, rows@, state_of(context), outs@, pos as int));
        }
        while i < rows.len()
            invariant
                i <= rows@.len(),
                pos <= cur <= outs@.len(),
                resolve_rows(build@, rows@, state_of(old(context)), outs@, pos as int)
                    == after_units(units_view(units@), resolve_rows(build@, rows@.skip(i as int), state_of(context), outs@, cur as int)),
            decreases rows@.len() - i,
        {
            assert(rows@.skip(i as int)[0] == rows@[i as int]);
            assert(rows@.skip(i as int).drop_first() =~= rows@.skip(i + 1));
            match publish_row(&rows[i], context) {
                Err(e) => return Resolution::Failed { error: ResolveError::Key(e) },
                Ok(()) => {},
            }
            match Self::resolve_all(build, context, outs, cur) {
                Resolution::Done { units: mut more, next } => {
                    withdraw_row(&rows[i], context);
                    proof {
                        lemma_after_units_assoc(units_view(units@), units_view(more@),
                            resolve_rows(build@, rows@.skip(i + 1), state_of(context), outs@, next as int));
                    }
                    let ghost before = units@;
                    let ghost added = more@;
                    units.append(&mut more);
                    assert(units_view(units@) =~= units_view(before) + units_view(added));
                    cur = next;
                },
                Resolution::Pending { command } => return Resolution::Pending { command },
                Resolution::Failed { error } => return Resolution::Failed { error },
            }
            i = i + 1;
        }
        proof {
            assert(units_view(units@) + Seq::<BuildUnitView>::empty() =~= units_view(units@));
        }
        Resolution::Done { units, next: cur }
    }
}

fn copy_hooks(v: &Vec<crate::specs::shell::Hook>) -> (r: Vec<crate::specs::shell::Hook>)
    ensures
        r@.map_values(|h: crate::specs::shell::Hook| h@) == v@.map_values(|h: crate::specs::shell::Hook| h@),
{
    let mut r: Vec<crate::specs::shell::Hook> = Vec::new();
    let mut i: usize = 0;
    while i < v.len()
        invariant
            i <= v@.len(),
            r@.map_values(|h: crate::specs::shell::Hook| h@) =~= v@.take(i as int).map_values(|h: crate::specs::shell::Hook| h@),
        decreases v@.len() - i,
    {
        let ghost before = r@;
        let h = v[i].duplicate();
        r.push(h);
        assert(r@ =~= before.push(h));
        assert(v@.take(i + 1) =~= v@.take(i as int).push(v@[i as int]));
        assert(r@.map_values(|h: crate::specs::shell::Hook| h@) =~= before.map_values(|h: crate::specs::shell::Hook| h@).push(h@));
        i = i + 1;
    }
    assert(v@.take(v@.len() as int) =~= v@);
    r
}

/// Resolving the build steps `a` followed by `b` gives the units of `a`
/// followed by the units of `b`, `b` being resolved from the state `a`
/// left: the order of build steps is preserved.
pub proof fn law_resolution_preserves_order(a: Seq<BuildSpec>, b: Seq<BuildSpec>, st: ContextState, outs: Seq<bool>, pos: int)
    ensures
        resolve_specs(a + b, st, outs, pos) == match resolve_specs(a, st, outs, pos) {
            ResolutionView::Done { units, state, next } => after_units(units, resolve_specs(b, state, outs, next)),
            other => other,
        },
    decreases a.len(),
{
    if a.len() == 0 {
        assert(a + b =~= b);
        lemma_after_units_empty(resolve_specs(b, st, outs, pos));
    } else {
        assert((a + b)[0] == a[0]);
        assert((a + b).drop_first() =~= a.drop_first() + b);
        match resolve_spec(a[0], st, outs, pos) {
            ResolutionView::Done { units, state, next } => {
                law_resolution_preserves_order(a.drop_first(), b, state, outs, next);
                match resolve_specs(a.drop_first(), state, outs, next) {
                    ResolutionView::Done { units: more, state: after, next: last } => {
                        lemma_after_units_assoc(units, more, resolve_specs(b, after, outs, last));
                    },
                    _ => {},
                }
            },
            _ => {},
        }
    }
}

/// A case stops at its first taken branch: what follows that branch does
/// not change the resolution.
pub proof fn law_case_stops_at_first_match(
    first: CaseBranch<Vec<BuildSpec>>,
    rest: Seq<CaseBranch<Vec<BuildSpec>>>,
    other: Seq<CaseBranch<Vec<BuildSpec>>>,
    st: ContextState,
    outs: Seq<bool>,
    pos: int,
)
    requires
        eval_condition(first.condition, st.locale, outs, pos) matches EvalView::Value { value, .. }
            && branch_taken(value, first.when),
    ensures
        resolve_branches(seq![first] + rest, st, outs, pos) == resolve_branches(seq![first] + other, st, outs, pos),
        resolve_branches(seq![first] + rest, st, outs, pos) == match eval_condition(first.condition, st.locale, outs, pos) {
            EvalView::Value { next, .. } => resolve_specs(first.build@, st, outs, next),
            EvalView::Pending { command } => ResolutionView::Pending { command, state: st },
        },
{
    assert((seq![first] + rest)[0] == first);
    assert((seq![first] + other)[0] == first);
}

/// The position in `outs` reached once the conditions of the first `k`
/// branches are evaluated from `pos`, when each gives a value that does
/// not take its branch; `None` when one of them is pending or taken.
pub open spec fn untaken_prefix(
    branches: Seq<CaseBranch<Vec<BuildSpec>>>,
    k: int,
    locale: LocaleView,
    outs: Seq<bool>,
    pos: int,
) -> Option<int>
    decreases k,
{
    if k <= 0 {
        Some(pos)
    } else {
        match untaken_prefix(branches, k - 1, locale, outs, pos) {
            None => None,
            Some(p) => match eval_condition(branches[k - 1].condition, locale, outs, p) {
                EvalView::Value { value, next } => if branch_taken(value, branches[k - 1].when) {
                    None
                } else {
                    Some(next)
                },
                EvalView::Pending { .. } => None,
            },
        }
    }
}

/// A case resolves its first taken branch, wherever it stands: when the
/// first `k` branches are not taken, the case resolves as its branches from
/// the `k`-th on; then the `k`-th, when taken, gives the resolution of its
/// build and no later branch is looked at; and when no branch at all is
/// taken, the case gives no unit and leaves the state as it was.
pub proof fn law_case_takes_first_taken_branch(
    branches: Seq<CaseBranch<Vec<BuildSpec>>>,
    k: int,
    st: ContextState,
    outs: Seq<bool>,
    pos: int,
)
    requires
        0 <= k <= branches.len(),
        untaken_prefix(branches, k, st.locale, outs, pos) is Some,
    ensures
        ({
            let q = untaken_prefix(branches, k, st.locale, outs, pos)->Some_0;
            &&& resolve_branches(branches, st, outs, pos) == resolve_branches(branches.skip(k), st, outs, q)
            &&& k == branches.len() ==> resolve_branches(branches, st, outs, pos)
                == (ResolutionView::Done { units: Seq::empty(), state: st, next: q })
            &&& k < branches.len() ==> match eval_condition(branches[k].condition, st.locale, outs, q) {
                EvalView::Value { value, next } => branch_taken(value, branches[k].when)
                    ==> resolve_branches(branches, st, outs, pos) == resolve_specs(branches[k].build@, st, outs, next),
                EvalView::Pending { .. } => true,
            }
        }),
    decreases k,
{
    let q = untaken_prefix(branches, k, st.locale, outs, pos)->Some_0;
    if k == 0 {
        assert(branches.skip(0) =~= branches);
    } else {
        let p = untaken_prefix(branches, k - 1, st.locale, outs, pos)->Some_0;
        law_case_takes_first_taken_branch(branches, k - 1, st, outs, pos);
        let rest = branches.skip(k - 1);
        assert(rest[0] == branches[k - 1]);
        assert(rest.drop_first() =~= branches.skip(k));
    }
    if k < branches.len() {
        assert(branches.skip(k)[0] == branches[k]);
    } else {
        assert(branches.skip(k).len() == 0);
    }
}

/// A matrix over the rows `a` followed by `b` gives the units of the rows
/// of `a` followed by those of `b`: the build is repeated for each row, in order.
pub proof fn law_matrix_repeats_per_row(
    build: Seq<BuildSpec>,
    a: Seq<Vec<(String, String)>>,
    b: Seq<Vec<(String, String)>>,
    st: ContextState,
    outs: Seq<bool>,
    pos: int,
)
    ensures
        resolve_rows(build, a + b, st, outs, pos) == match resolve_rows(build, a, st, outs, pos) {
            ResolutionView::Done { units, state, next } => after_units(units, resolve_rows(build, b, state, outs, next)),
            other => other,
        },
    decreases a.len(),
{
    if a.len() == 0 {
        assert(a + b =~= b);
        lemma_after_units_empty(resolve_rows(build, b, st, outs, pos));
    } else {
        assert((a + b)[0] == a[0]);
        assert((a + b).drop_first() =~= a.drop_first() + b);
        match push_row(st.variables, st.environment, pairs_view(a[0])) {
            Ok(vars) => match resolve_specs(build, ContextState { variables: vars, ..st }, outs, pos) {
                ResolutionView::Done { units, state, next } => {
                    let after = ContextState { variables: drop_row(state.variables, pairs_view(a[0])), ..state };
                    law_matrix_repeats_per_row(build, a.drop_first(), b, after, outs, next);
                    match resolve_rows(build, a.drop_first(), after, outs, next) {
                        ResolutionView::Done { units: more, state: s2, next: n2 } => {
                            lemma_after_units_assoc(units, more, resolve_rows(build, b, s2, outs, n2));
                        },
                        _ => {},
                    }
                },
                _ => {},
            },
            Err(_) => {},
        }
    }
}

/// Resolution of `build` for each row of `rows` in turn, each row taken
/// as a matrix of that row alone, from the state the previous one left.
pub open spec fn rows_one_by_one(
    build: Seq<BuildSpec>,
    rows: Seq<Vec<(String, String)>>,
    st: ContextState,
    outs: Seq<bool>,
    pos: int,
) -> ResolutionView
    decreases rows.len(),
{
    if rows.len() == 0 {
        ResolutionView::Done { units: Seq::empty(), state: st, next: pos }
    } else {
        match resolve_rows(build, seq![rows[0]], st, outs, pos) {
            ResolutionView::Done { units, state, next } => after_units(units, rows_one_by_one(build, rows.drop_first(), state, outs, next)),
            other => other,
        }
    }
}

/// A matrix resolves as its rows written out one after the other: its
/// units are those of the build resolved with the first row bound, then
/// with the second, and so on, each from the state the previous row left
/// (where that row's variables are withdrawn again); the first failure
/// stops it.
pub proof fn law_matrix_is_rows_written_out(
    build: Seq<BuildSpec>,
    rows: Seq<Vec<(String, String)>>,
    st: ContextState,
    outs: Seq<bool>,
    pos: int,
)
    ensures
        resolve_rows(build, rows, st, outs, pos) == rows_one_by_one(build, rows, st, outs, pos),
    decreases rows.len(),
{
    if rows.len() > 0 {
        let first = seq![rows[0]];
        assert(first + rows.drop_first() =~= rows);
        law_matrix_repeats_per_row(build, first, rows.drop_first(), st, outs, pos);
        if let ResolutionView::Done { state, next, .. } = resolve_rows(build, first, st, outs, pos) {
            law_matrix_is_rows_written_out(build, rows.drop_first(), state, outs, next);
        }
    }
}

/// A matrix without rows cannot be resolved, and leaves the state as it was.
pub proof fn law_empty_matrix_fails(m: Matrix<Vec<BuildSpec>>, st: ContextState, outs: Seq<bool>, pos: int)
    requires
        m.values@.len() == 0,
    ensures
        resolve_spec(BuildSpec::Matrix(m), st, outs, pos) == (ResolutionView::Failed { error: ResolveErrorView::EmptyMatrix, state: st }),
{
}

/// A resolved package names only package managers declared before it.
pub proof fn law_package_managers_are_declared(p: Package, st: ContextState, outs: Seq<bool>, pos: int)
    ensures
        resolve_spec(BuildSpec::Package(p), st, outs, pos) matches ResolutionView::Done { units, .. } ==> (
            units[0] matches BuildUnitView::Package(q)
                && forall|i: int| 0 <= i < q.managers.len() ==> entry_names(st.managers).contains(#[trigger] q.managers[i])),
{
    let declared = entry_names(st.managers);
    let pred = |m: Seq<char>| declared.contains(m);
    if p@.managers.len() != 0 {
        assert forall|i: int| 0 <= i < p@.managers.filter(pred).len() implies declared.contains(#[trigger] p@.managers.filter(pred)[i]) by {
            p@.managers.lemma_filter_pred(pred, i);
        }
    } else {
        assert forall|i: int| 0 <= i < declared.len() implies declared.contains(#[trigger] declared[i]) by {
            assert(declared[i] == declared[i]);
        }
    }
}

/// The keys of a matrix row are distinct.
pub open spec fn distinct_keys(pairs: Seq<(Seq<char>, Seq<char>)>) -> bool {
    forall|i: int, j: int| 0 <= i < j < pairs.len() ==> pairs[i].0 != pairs[j].0
}

proof fn lemma_last_index_at(s: Seq<(KeyView, Seq<char>)>, k: KeyView, m: int, n: int)
    requires
        0 <= m < n <= s.len(),
        s[m].0 == k,
        forall|j: int| m < j < n ==> s[j].0 != k,
    ensures
        last_index(s, k, n) == m,
    decreases n,
{
    if n - 1 > m {
        lemma_last_index_at(s, k, m, n - 1);
    }
}

proof fn lemma_push_row_shape(vars: Seq<(KeyView, Seq<char>)>, env: Seq<(Seq<char>, Seq<char>)>, pairs: Seq<(Seq<char>, Seq<char>)>)
    requires
        push_row(vars, env, pairs) is Ok,
    ensures
        ({
            let w = push_row(vars, env, pairs)->Ok_0;
            &&& w.len() == vars.len() + pairs.len()
            &&& w.take(vars.len() as int) == vars
            &&& forall|i: int| 0 <= i < pairs.len() ==> #[trigger] w[vars.len() + i].0 == matrix_key(pairs[i].0)
        }),
    decreases pairs.len(),
{
    if pairs.len() > 0 {
        let v = substitution(vars_lookup(vars, env), pairs[0].1, 0)->Ok_0;
        let next = vars.push((matrix_key(pairs[0].0), v));
        lemma_push_row_shape(next, env, pairs.drop_first());
        let w = push_row(vars, env, pairs)->Ok_0;
        assert(w == push_row(next, env, pairs.drop_first())->Ok_0);
        assert(w.take(vars.len() as int) =~= next.take(next.len() as int).take(vars.len() as int));
        assert(next.take(next.len() as int) =~= next);
        assert forall|i: int| 0 <= i < pairs.len() implies #[trigger] w[vars.len() + i].0 == matrix_key(pairs[i].0) by {
            if i == 0 {
                assert(w[vars.len() as int] == w.take(next.len() as int)[vars.len() as int]);
            } else {
                assert(w[next.len() + (i - 1)].0 == matrix_key(pairs.drop_first()[i - 1].0));
            }
        }
    } else {
        assert(vars.take(vars.len() as int) =~= vars);
    }
}

proof fn lemma_drop_pushed_row(v: Seq<(KeyView, Seq<char>)>, u: Seq<(KeyView, Seq<char>)>, pairs: Seq<(Seq<char>, Seq<char>)>)
    requires
        u.len() == pairs.len(),
        distinct_keys(pairs),
        forall|i: int| 0 <= i < pairs.len() ==> #[trigger] u[i].0 == matrix_key(pairs[i].0),
    ensures
        drop_row(v + u, pairs) == v,
    decreases pairs.len(),
{
    if pairs.len() == 0 {
        assert(v + u =~= v);
    } else {
        let s = v + u;
        let k = matrix_key(pairs[0].0);
        assert(s[v.len() as int].0 == k);
        assert forall|j: int| v.len() < j < s.len() implies s[j].0 != k by {
            assert(s[j] == u[j - v.len()]);
            assert(u[j - v.len()].0 == matrix_key(pairs[j - v.len()].0));
            assert(pairs[0].0 != pairs[j - v.len()].0);
        }
        lemma_last_index_at(s, k, v.len() as int, s.len() as int);
        assert(stack_drop(s, k) =~= v + u.drop_first());
        assert forall|i: int| 0 <= i < pairs.drop_first().len() implies #[trigger] u.drop_first()[i].0 == matrix_key(pairs.drop_first()[i].0) by {
            assert(u.drop_first()[i] == u[i + 1]);
        }
        lemma_drop_pushed_row(v, u.drop_first(), pairs.drop_first());
    }
}

/// A matrix row's variables are withdrawn once the row is resolved: pushing
/// the row and dropping it again, with nothing pushed in between, gives the
/// variables back as they were.
pub proof fn law_matrix_row_is_withdrawn(
    vars: Seq<(KeyView, Seq<char>)>,
    env: Seq<(Seq<char>, Seq<char>)>,
    pairs: Seq<(Seq<char>, Seq<char>)>,
)
    requires
        distinct_keys(pairs),
        push_row(vars, env, pairs) is Ok,
    ensures
        drop_row(push_row(vars, env, pairs)->Ok_0, pairs) == vars,
{
    lemma_push_row_shape(vars, env, pairs);
    let w = push_row(vars, env, pairs)->Ok_0;
    let u = w.skip(vars.len() as int);
    assert(w =~= vars + u);
    assert forall|i: int| 0 <= i < pairs.len() implies #[trigger] u[i].0 == matrix_key(pairs[i].0) by {
        assert(u[i] == w[vars.len() + i]);
    }
    lemma_drop_pushed_row(vars, u, pairs);
}

/// How many pairs of `pairs` have the key `key`.
pub open spec fn key_count(pairs: Seq<(Seq<char>, Seq<char>)>, key: Seq<char>) -> nat
    decreases pairs.len(),
{
    if pairs.len() == 0 {
        0
    } else {
        (if pairs[0].0 == key { 1nat } else { 0nat }) + key_count(pairs.drop_first(), key)
    }
}

/// The stack of every `matrix.<attr>` key is the same in `a` and in `b`.
pub open spec fn matrix_stacks_kept(a: Seq<(KeyView, Seq<char>)>, b: Seq<(KeyView, Seq<char>)>) -> bool {
    forall|attr: Seq<char>|
        #![trigger stack_of(a, matrix_key(attr))]
        #![trigger stack_of(b, matrix_key(attr))]
        stack_of(b, matrix_key(attr)) == stack_of(a, matrix_key(attr))
}

/// `s` holds the `matrix.*` stacks of `base` with, on top of each, one more
/// value for each pair of `pairs` with that key.
spec fn matrix_stacks_extended(base: Seq<(KeyView, Seq<char>)>, s: Seq<(KeyView, Seq<char>)>, pairs: Seq<(Seq<char>, Seq<char>)>) -> bool {
    forall|attr: Seq<char>|
        #![trigger stack_of(s, matrix_key(attr))]
        stack_of(s, matrix_key(attr)).len() == stack_of(base, matrix_key(attr)).len() + key_count(pairs, attr)
            && stack_of(s, matrix_key(attr)).take(stack_of(base, matrix_key(attr)).len() as int) == stack_of(base, matrix_key(attr))
}

proof fn lemma_push_other_keeps(s: Seq<(KeyView, Seq<char>)>, k: KeyView, v: Seq<char>)
    requires
        !(k matches KeyView::ObjectAttr { object, .. } && object == seq!['m', 'a', 't', 'r', 'i', 'x']),
    ensures
        matrix_stacks_kept(s, s.push((k, v))),
{
    assert forall|attr: Seq<char>| #[trigger] stack_of(s.push((k, v)), matrix_key(attr)) == stack_of(s, matrix_key(attr)) by {
        lemma_stack_of_push(s, k, v, matrix_key(attr));
    }
}

proof fn lemma_push_vars_keeps(vars: Seq<(KeyView, Seq<char>)>, pairs: Seq<(Seq<char>, Seq<char>)>)
    ensures
        matrix_stacks_kept(vars, push_vars(vars, pairs)),
    decreases pairs.len(),
{
    if pairs.len() > 0 {
        let k = KeyView::ObjectAttr { object: seq!['v', 'a', 'r', 's'], attr: pairs[0].0 };
        let next = vars.push((k, pairs[0].1));
        assert(seq!['v', 'a', 'r', 's'].len() != seq!['m', 'a', 't', 'r', 'i', 'x'].len());
        lemma_push_other_keeps(vars, k, pairs[0].1);
        lemma_push_vars_keeps(next, pairs.drop_first());
    }
}

proof fn lemma_repo_keeps(r: RepoView, st: ContextState)
    ensures
        repo_resolution(r, st) matches Ok((_, vars)) ==> matrix_stacks_kept(st.variables, vars),
{
    if let Ok((repo, vars)) = repo_resolution(r, st) {
        assert(seq!['r', 'e', 'p', 'o'].len() != seq!['m', 'a', 't', 'r', 'i', 'x'].len());
        let id = repo_name(repo.path)->Some_0;
        let s0 = st.variables;
        let s1 = s0.push((repo_keys(path_attr(), id).0, repo.path));
        let s2 = s1.push((repo_keys(path_attr(), id).1, repo.path));
        let s3 = s2.push((repo_keys(url_attr(), id).0, repo.url));
        let s4 = s3.push((repo_keys(url_attr(), id).1, repo.url));
        assert(vars == s4);
        lemma_push_other_keeps(s0, repo_keys(path_attr(), id).0, repo.path);
        lemma_push_other_keeps(s1, repo_keys(path_attr(), id).1, repo.path);
        lemma_push_other_keeps(s2, repo_keys(url_attr(), id).0, repo.url);
        lemma_push_other_keeps(s3, repo_keys(url_attr(), id).1, repo.url);
    }
}

proof fn lemma_push_row_extends(vars: Seq<(KeyView, Seq<char>)>, env: Seq<(Seq<char>, Seq<char>)>, pairs: Seq<(Seq<char>, Seq<char>)>)
    requires
        push_row(vars, env, pairs) is Ok,
    ensures
        matrix_stacks_extended(vars, push_row(vars, env, pairs)->Ok_0, pairs),
    decreases pairs.len(),
{
    let w = push_row(vars, env, pairs)->Ok_0;
    if pairs.len() == 0 {
        assert forall|attr: Seq<char>| #[trigger] stack_of(w, matrix_key(attr)).take(stack_of(vars, matrix_key(attr)).len() as int)
            == stack_of(vars, matrix_key(attr)) by {
            assert(stack_of(vars, matrix_key(attr)).take(stack_of(vars, matrix_key(attr)).len() as int) =~= stack_of(vars, matrix_key(attr)));
        }
    } else {
        let v = substitution(vars_lookup(vars, env), pairs[0].1, 0)->Ok_0;
        let next = vars.push((matrix_key(pairs[0].0), v));
        lemma_push_row_extends(next, env, pairs.drop_first());
        assert forall|attr: Seq<char>| #[trigger] stack_of(w, matrix_key(attr)).len()
            == stack_of(vars, matrix_key(attr)).len() + key_count(pairs, attr)
            && stack_of(w, matrix_key(attr)).take(stack_of(vars, matrix_key(attr)).len() as int) == stack_of(vars, matrix_key(attr)) by {
            lemma_stack_of_push(vars, matrix_key(pairs[0].0), v, matrix_key(attr));
            let a = stack_of(vars, matrix_key(attr));
            let b = stack_of(next, matrix_key(attr));
            let c = stack_of(w, matrix_key(attr));
            assert(c.take(b.len() as int) == b);
            if pairs[0].0 == attr {
                assert(b == a.push(v));
                assert(c.take(a.len() as int) =~= c.take(b.len() as int).take(a.len() as int));
                assert(a.push(v).take(a.len() as int) =~= a);
            } else {
                assert(b == a);
            }
        }
    }
}

proof fn lemma_drop_row_restores(s: Seq<(KeyView, Seq<char>)>, base: Seq<(KeyView, Seq<char>)>, pairs: Seq<(Seq<char>, Seq<char>)>)
    requires
        matrix_stacks_extended(base, s, pairs),
    ensures
        matrix_stacks_kept(base, drop_row(s, pairs)),
    decreases pairs.len(),
{
    if pairs.len() == 0 {
        assert forall|attr: Seq<char>| #[trigger] stack_of(s, matrix_key(attr)) == stack_of(base, matrix_key(attr)) by {
            let c = stack_of(s, matrix_key(attr));
            assert(c.take(c.len() as int) =~= c);
        }
    } else {
        let k = matrix_key(pairs[0].0);
        let t = stack_drop(s, k);
        assert forall|attr: Seq<char>| #[trigger] stack_of(t, matrix_key(attr)).len()
            == stack_of(base, matrix_key(attr)).len() + key_count(pairs.drop_first(), attr)
            && stack_of(t, matrix_key(attr)).take(stack_of(base, matrix_key(attr)).len() as int) == stack_of(base, matrix_key(attr)) by {
            let a = stack_of(base, matrix_key(attr));
            let c = stack_of(s, matrix_key(attr));
            assert(c.len() == a.len() + key_count(pairs, attr));
            assert(c.take(a.len() as int) == a);
            lemma_stack_of_drop(s, k, matrix_key(attr));
            if pairs[0].0 == attr {
                assert(stack_of(t, matrix_key(attr)) == c.drop_last());
                assert(c.drop_last().take(a.len() as int) =~= c.take(a.len() as int));
            }
        }
        lemma_drop_row_restores(t, base, pairs.drop_first());
    }
}

proof fn lemma_kept_trans(a: Seq<(KeyView, Seq<char>)>, b: Seq<(KeyView, Seq<char>)>, c: Seq<(KeyView, Seq<char>)>)
    requires
        matrix_stacks_kept(a, b),
        matrix_stacks_kept(b, c),
    ensures
        matrix_stacks_kept(a, c),
{
    assert forall|attr: Seq<char>| #[trigger] stack_of(c, matrix_key(attr)) == stack_of(a, matrix_key(attr)) by {
        assert(stack_of(c, matrix_key(attr)) == stack_of(b, matrix_key(attr)));
    }
}

proof fn lemma_spec_keeps(spec: BuildSpec, st: ContextState, outs: Seq<bool>, pos: int)
    ensures
        resolve_spec(spec, st, outs, pos) matches ResolutionView::Done { state, .. } ==> matrix_stacks_kept(st.variables, state.variables),
    decreases spec, 0int,
{
    match spec {
        BuildSpec::Vars(v) => lemma_push_vars_keeps(st.variables, pairs_view(v.0)),
        BuildSpec::Case(c) => lemma_branches_keep(c.0@, st, outs, pos),
        BuildSpec::Matrix(m) => if m.values@.len() > 0 {
            lemma_rows_keep(m.build@, m.values@, st, outs, pos);
        },
        BuildSpec::Repo(r) => lemma_repo_keeps(r@, st),
        _ => {},
    }
}

proof fn lemma_specs_keep(specs: Seq<BuildSpec>, st: ContextState, outs: Seq<bool>, pos: int)
    ensures
        resolve_specs(specs, st, outs, pos) matches ResolutionView::Done { state, .. } ==> matrix_stacks_kept(st.variables, state.variables),
    decreases specs, 0int,
{
    if specs.len() > 0 {
        lemma_spec_keeps(specs[0], st, outs, pos);
        if let ResolutionView::Done { state, next, .. } = resolve_spec(specs[0], st, outs, pos) {
            lemma_specs_keep(specs.drop_first(), state, outs, next);
            if let ResolutionView::Done { state: last, .. } = resolve_specs(specs.drop_first(), state, outs, next) {
                lemma_kept_trans(st.variables, state.variables, last.variables);
            }
        }
    }
}

proof fn lemma_branches_keep(branches: Seq<CaseBranch<Vec<BuildSpec>>>, st: ContextState, outs: Seq<bool>, pos: int)
    ensures
        resolve_branches(branches, st, outs, pos) matches ResolutionView::Done { state, .. } ==> matrix_stacks_kept(st.variables, state.variables),
    decreases branches, 0int,
{
    if branches.len() > 0 {
        if let EvalView::Value { value, next } = eval_condition(branches[0].condition, st.locale, outs, pos) {
            if branch_taken(value, branches[0].when) {
                lemma_specs_keep(branches[0].build@, st, outs, next);
            } else {
                lemma_branches_keep(branches.drop_first(), st, outs, next);
            }
        }
    }
}

proof fn lemma_rows_keep(
    build: Seq<BuildSpec>,
    rows: Seq<Vec<(String, String)>>,
    st: ContextState,
    outs: Seq<bool>,
    pos: int,
)
    ensures
        resolve_rows(build, rows, st, outs, pos) matches ResolutionView::Done { state, .. } ==> matrix_stacks_kept(st.variables, state.variables),
    decreases build, rows.len(),
{
    if rows.len() > 0 {
        let pairs = pairs_view(rows[0]);
        if let Ok(vars) = push_row(st.variables, st.environment, pairs) {
            let inner = ContextState { variables: vars, ..st };
            lemma_specs_keep(build, inner, outs, pos);
            if let ResolutionView::Done { state, next, .. } = resolve_specs(build, inner, outs, pos) {
                lemma_push_row_extends(st.variables, st.environment, pairs);
                assert forall|attr: Seq<char>| #[trigger] stack_of(state.variables, matrix_key(attr)).len()
                    == stack_of(st.variables, matrix_key(attr)).len() + key_count(pairs, attr)
                    && stack_of(state.variables, matrix_key(attr)).take(stack_of(st.variables, matrix_key(attr)).len() as int)
                        == stack_of(st.variables, matrix_key(attr)) by {
                    assert(stack_of(state.variables, matrix_key(attr)) == stack_of(vars, matrix_key(attr)));
                }
                lemma_drop_row_restores(state.variables, st.variables, pairs);
                let after = ContextState { variables: drop_row(state.variables, pairs), ..state };
                lemma_rows_keep(build, rows.drop_first(), after, outs, next);
                if let ResolutionView::Done { state: last, .. } = resolve_rows(build, rows.drop_first(), after, outs, next) {
                    lemma_kept_trans(st.variables, after.variables, last.variables);
                }
            }
        }
    }
}

/// Resolving build steps that finish leaves every `matrix.<key>` variable
/// as it was: each matrix withdraws its rows' values, and no other step
/// publishes a `matrix` variable. In particular, after a matrix is
/// resolved, `matrix.<key>` reads again what it read before.
pub proof fn law_resolution_restores_matrix_variables(specs: Seq<BuildSpec>, st: ContextState, outs: Seq<bool>, pos: int, key: Seq<char>)
    ensures
        resolve_specs(specs, st, outs, pos) matches ResolutionView::Done { state, .. } ==> {
            &&& stack_of(state.variables, matrix_key(key)) == stack_of(st.variables, matrix_key(key))
            &&& stack_get(state.variables, matrix_key(key)) == stack_get(st.variables, matrix_key(key))
        },
{
    lemma_specs_keep(specs, st, outs, pos);
    if let ResolutionView::Done { state, .. } = resolve_specs(specs, st, outs, pos) {
        assert(stack_of(state.variables, matrix_key(key)) == stack_of(st.variables, matrix_key(key)));
        law_get_is_top_of_stack(state.variables, matrix_key(key));
        law_get_is_top_of_stack(st.variables, matrix_key(key));
    }
}

/// The value that a list of `(key, value)` pairs gives to `key`: the last
/// pair with that key, if any.
pub open spec fn last_value(pairs: Seq<(Seq<char>, Seq<char>)>, key: Seq<char>) -> Option<Seq<char>>
    decreases pairs.len(),
{
    if pairs.len() == 0 {
        None
    } else {
        match last_value(pairs.drop_first(), key) {
            Some(v) => Some(v),
            None => if pairs[0].0 == key {
                Some(pairs[0].1)
            } else {
                None
            },
        }
    }
}

/// The key `vars.<attr>`.
pub open spec fn vars_key(attr: Seq<char>) -> KeyView {
    KeyView::ObjectAttr { object: seq!['v', 'a', 'r', 's'], attr }
}

/// After `vars` are published, `vars.<key>` reads the last value given to
/// `key`, and keeps its former value when no pair gives it one.
pub proof fn law_vars_are_published(vars: Seq<(KeyView, Seq<char>)>, pairs: Seq<(Seq<char>, Seq<char>)>, key: Seq<char>)
    ensures
        stack_get(push_vars(vars, pairs), vars_key(key)) == match last_value(pairs, key) {
            Some(v) => Some(v),
            None => stack_get(vars, vars_key(key)),
        },
    decreases pairs.len(),
{
    if pairs.len() > 0 {
        let next = vars.push((vars_key(pairs[0].0), pairs[0].1));
        law_vars_are_published(next, pairs.drop_first(), key);
        if pairs[0].0 == key {
            law_get_after_push(vars, vars_key(key), pairs[0].1);
        } else {
            law_push_keeps_other_keys(vars, vars_key(pairs[0].0), pairs[0].1, vars_key(key));
        }
    }
}

/// A resolved link has the references of its source and of its target
/// substituted and every `~` in both replaced by the home directory; a
/// resolved hook has the references of its command substituted (its `~`
/// kept) and keeps its hooks and shell; a resolved package has its name
/// substituted and keeps its aliases. None of them changes the state.
pub proof fn law_resolved_steps_are_substituted(spec: BuildSpec, st: ContextState, outs: Seq<bool>, pos: int)
    ensures
        resolve_spec(spec, st, outs, pos) matches ResolutionView::Done { units, state, next } ==> match spec {
            BuildSpec::Link(l) => {
                &&& units.len() == 1
                &&& state == st
                &&& next == pos
                &&& units[0] matches BuildUnitView::Link(x)
                && expand_home(substitution(state_lookup(st), l@.source, 0), st.home) == Ok::<Seq<char>, KeyErrorView>(x.source)
                && expand_home(substitution(state_lookup(st), l@.target, 0), st.home) == Ok::<Seq<char>, KeyErrorView>(x.target)
            },
            BuildSpec::Hook(h) => {
                &&& units.len() == 1
                &&& state == st
                &&& next == pos
                &&& units[0] matches BuildUnitView::Hook(x)
                && substitution(state_lookup(st), h@.command.command, 0) == Ok::<Seq<char>, KeyErrorView>(x.command.command)
                && x.on == h@.on && x.command.shell == h@.command.shell
            },
            BuildSpec::Package(p) => {
                &&& units.len() == 1
                &&& state == st
                &&& next == pos
                &&& units[0] matches BuildUnitView::Package(x)
                && substitution(state_lookup(st), p@.name, 0) == Ok::<Seq<char>, KeyErrorView>(x.name)
                && x.aliases == p@.aliases
            },
            _ => true,
        },
        match spec {
            BuildSpec::Link(l) => (expand_home(substitution(state_lookup(st), l@.source, 0), st.home) is Ok
                && expand_home(substitution(state_lookup(st), l@.target, 0), st.home) is Ok)
                <==> resolve_spec(spec, st, outs, pos) is Done,
            BuildSpec::Hook(h) => substitution(state_lookup(st), h@.command.command, 0) is Ok
                <==> resolve_spec(spec, st, outs, pos) is Done,
            BuildSpec::Package(p) => substitution(state_lookup(st), p@.name, 0) is Ok
                <==> resolve_spec(spec, st, outs, pos) is Done,
            _ => true,
        },
{
}

} // verus!
