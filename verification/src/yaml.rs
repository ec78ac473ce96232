//! A store of `namespace.variable` values, the substitution of
//! `${{ namespace.variable }}` references with them, and locale cases.
use vstd::prelude::*;
use crate::text::{owned, string_of_range, chars_of, copy_string, is_text};
use crate::link::{Link, LinkView, link_expansion};
use crate::pack;
use crate::context::{dirs_home_dir, home_from, home_of, replace_tilde, replace_char, expand_home, field_ok, field_matches, opt_view};
use crate::text::space_char;
use crate::context::parse::{
    Key, KeyView, KeyError, KeyErrorView, KeyStack, Environment, Resolver, result_view, env_lookup,
    stack_get, trim, trim_bounds, skip_space, skip_space_back, reference_end, find_reference_end, substitution, lookup_of,
    substitute as substitute_with, lemma_next_brace_bounds,
};

verus! {

/// A character that may start a name: an ASCII letter or `_`.
pub open spec fn name_start(c: char) -> bool {
    ('a' <= c && c <= 'z') || ('A' <= c && c <= 'Z') || c == '_'
}

/// A character that may continue a name: an ASCII letter, digit or `_`.
pub open spec fn name_char(c: char) -> bool {
    name_start(c) || ('0' <= c && c <= '9')
}

/// `s` is a name (`[a-zA-Z_][a-zA-Z_0-9]*`).
pub open spec fn is_name(s: Seq<char>) -> bool {
    s.len() > 0 && name_start(s[0]) && forall|i: int| 0 <= i < s.len() ==> name_char(#[trigger] s[i])
}

/// Index of the first `.` in `s` at or after `i` (or `s.len()`).
pub open spec fn first_dot(s: Seq<char>, i: int) -> int
    decreases s.len() - i,
{
    if i < 0 || i >= s.len() {
        s.len() as int
    } else if s[i] == '.' {
        i
    } else {
        first_dot(s, i + 1)
    }
}

/// The namespace and variable named by the text of a reference
/// (`^\s*namespace\.variable\s*$`), if it names one.
pub open spec fn reference_parts(s: Seq<char>) -> Option<(Seq<char>, Seq<char>)> {
    let t = trim(s);
    let d = first_dot(t, 0);
    if d < t.len() && is_name(t.take(d)) && is_name(t.skip(d + 1)) {
        Some((t.take(d), t.skip(d + 1)))
    } else {
        None
    }
}

/// Whether `v[lo..hi]` is a name.
fn is_name_range(v: &Vec<char>, lo: usize, hi: usize) -> (r: bool)
    requires
        lo <= hi <= v@.len(),
    ensures
        r == is_name(v@.subrange(lo as int, hi as int)),
{
    let ghost s = v@.subrange(lo as int, hi as int);
    if lo == hi {
        return false;
    }
    let c = v[lo];
    if !(('a' <= c && c <= 'z') || ('A' <= c && c <= 'Z') || c == '_') {
        assert(!name_start(s[0]));
        return false;
    }
    let mut j = lo;
    while j < hi
        invariant
            lo <= j <= hi <= v@.len(),
            s == v@.subrange(lo as int, hi as int),
            forall|k: int| 0 <= k < j - lo ==> name_char(#[trigger] s[k]),
        decreases hi - j,
    {
        let d = v[j];
        if !(('a' <= d && d <= 'z') || ('A' <= d && d <= 'Z') || d == '_' || ('0' <= d && d <= '9')) {
            assert(!name_char(s[j - lo]));
            return false;
        }
        j = j + 1;
    }
    true
}

/// The namespace and variable named by the text of a reference such as
/// ` ns.var ` (surrounding whitespace is allowed).
pub fn match_inner(inner: &str) -> (r: Option<(String, String)>)
    ensures
        match r {
            Some((ns, var)) => reference_parts(inner@) == Some((ns@, var@)),
            None => reference_parts(inner@) is None,
        },
{
    let v = chars_of(inner);
    let (lo, hi) = trim_bounds(&v);
    let ghost t = trim(v@);
    assert(t == v@.subrange(lo as int, hi as int));
    let mut d = lo;
    while d < hi && v[d] != '.'
        invariant
            lo <= d <= hi <= v@.len(),
            t == v@.subrange(lo as int, hi as int),
            first_dot(t, 0) == first_dot(t, d - lo),
        decreases hi - d,
    {
        d = d + 1;
    }
    if d < hi {
        assert(v@.subrange(lo as int, d as int) =~= t.take(d - lo));
        assert(v@.subrange(d + 1, hi as int) =~= t.skip(d - lo + 1));
        if is_name_range(&v, lo, d) && is_name_range(&v, d + 1, hi) {
            return Some((string_of_range(&v, lo, d), string_of_range(&v, d + 1, hi)));
        }
    }
    None
}

/// Start of the first reference `${{ inner }}` at or after `i`, if any.
pub open spec fn first_reference(s: Seq<char>, i: int) -> Option<int>
    decreases s.len() - i,
{
    if i < 0 || i >= s.len() {
        None
    } else if reference_end(s, i) is Some {
        Some(i)
    } else {
        first_reference(s, i + 1)
    }
}

/// The first reference of a string: where it starts and ends, and the text
/// between `${{` and `}}`.
pub struct Reference {
    pub start: usize,
    pub end: usize,
    pub inner: String,
}

/// The first reference `${{ inner }}` of `input`, where `inner` holds no brace.
pub fn match_outer(input: &str) -> (r: Option<Reference>)
    ensures
        match r {
            Some(m) => first_reference(input@, 0) == Some(m.start as int)
                && reference_end(input@, m.start as int) == Some(m.end as int)
                && m.inner@ == input@.subrange(m.start + 3, m.end - 2),
            None => first_reference(input@, 0) is None,
        },
{
    let v = chars_of(input);
    let mut i: usize = 0;
    while i < v.len()
        invariant
            i <= v@.len(),
            v@ == input@,
            first_reference(v@, 0) == first_reference(v@, i as int),
        decreases v@.len() - i,
    {
        match find_reference_end(&v, i) {
            Some(e) => {
                proof {
                    lemma_next_brace_bounds(v@, i + 3);
                }
                let inner = string_of_range(&v, i + 3, e - 2);
                return Some(Reference { start: i, end: e, inner });
            },
            None => {},
        }
        i = i + 1;
    }
    None
}

/// Namespace whose variables are read from the environment.
pub open spec fn env_namespace() -> Seq<char> {
    seq!['e', 'n', 'v']
}

/// The key under which the variable `var` of `namespace` is stored.
pub open spec fn stored_key(namespace: Seq<char>, var: Seq<char>) -> KeyView {
    KeyView::ObjectAttr { object: namespace, attr: var }
}

/// Values of `namespace.variable` references, and the home directory that
/// replaces `~`.
pub struct Context {
    variables: KeyStack,
    home_dir: String,
    environment: Environment,
}

/// Mathematical form of a [`Context`].
pub struct ContextView {
    pub variables: Seq<(KeyView, Seq<char>)>,
    pub home_dir: Seq<char>,
    pub environment: Seq<(Seq<char>, Seq<char>)>,
}

impl View for Context {
    type V = ContextView;

    closed spec fn view(&self) -> ContextView {
        ContextView { variables: self.variables@, home_dir: self.home_dir@, environment: self.environment@ }
    }
}

/// Value of `namespace.var` in `c`: the environment for the `env`
/// namespace, the stored value otherwise.
pub open spec fn lookup_value(c: ContextView, namespace: Seq<char>, var: Seq<char>) -> Result<Seq<char>, KeyErrorView> {
    if namespace == env_namespace() {
        match env_lookup(c.environment, var) {
            Some(v) => Ok(v),
            None => Err(KeyErrorView::MissingEnvVar(var)),
        }
    } else {
        match stack_get(c.variables, stored_key(namespace, var)) {
            Some(v) => Ok(v),
            None => Err(KeyErrorView::Undefined(stored_key(namespace, var))),
        }
    }
}

/// Value of the reference text `inner` in `c`.
pub open spec fn reference_value(c: ContextView, inner: Seq<char>) -> Result<Seq<char>, KeyErrorView> {
    match reference_parts(inner) {
        Some((ns, var)) => lookup_value(c, ns, var),
        None => Err(KeyErrorView::Invalid(inner)),
    }
}

/// The substitution of `input` in `c`, followed by the replacement of every `~`.
pub open spec fn expansion(c: ContextView, input: Seq<char>) -> Result<Seq<char>, KeyErrorView> {
    expand_home(substitution(|inner: Seq<char>| reference_value(c, inner), input, 0), c.home_dir)
}

impl Context {
    /// A context without variables, reading `env.*` from `environment`, with
    /// the home directory that [`home_of`] makes of `home`, the one the
    /// system reports.
    pub fn with_home_dir(environment: Environment, home: Option<String>) -> (r: Context)
        ensures
            r@.variables == Seq::<(KeyView, Seq<char>)>::empty(),
            r@.environment == environment@,
            r@.home_dir == home_of(opt_view(home)),
    {
        let home_dir = home_from(home);
        Context { variables: KeyStack::new(), home_dir, environment }
    }

    /// [`Context::with_home_dir`] with the home directory that
    /// `dirs::home_dir` reports for this machine.
    pub fn new(environment: Environment) -> (r: Context)
        ensures
            r@.variables == Seq::<(KeyView, Seq<char>)>::empty(),
            r@.environment == environment@,
            exists|h: Option<Seq<char>>| r@.home_dir == home_of(h),
    {
        let home = dirs_home_dir();
        let ghost h = opt_view(home);
        let r = Context::with_home_dir(environment, home);
        assert(r@.home_dir == home_of(h));
        r
    }

    /// Sets `namespace.variable` to `value`, returning its former value.
    pub fn insert(&mut self, namespace: String, variable: String, value: String) -> (r: Option<String>)
        ensures
            final(self)@ == (ContextView {
                variables: old(self)@.variables.push((stored_key(namespace@, variable@), value@)),
                ..old(self)@
            }),
            match r {
                Some(v) => stack_get(old(self)@.variables, stored_key(namespace@, variable@)) == Some(v@),
                None => stack_get(old(self)@.variables, stored_key(namespace@, variable@)) is None,
            },
    {
        let key = Key::ObjectAttr { object: namespace, attr: variable };
        let former = self.variables.get(&key);
        self.variables.push(key, value);
        former
    }

    /// Value of `namespace.variable`: the environment variable `variable`
    /// for the `env` namespace, the stored value otherwise.
    pub fn lookup(&self, namespace: &str, variable: &str) -> (r: Result<String, KeyError>)
        ensures
            result_view(&r) == lookup_value(self@, namespace@, variable@),
    {
        proof {
            reveal_strlit("env");
            assert("env"@ =~= env_namespace());
        }
        let ns = owned(namespace);
        let var = owned(variable);
        if is_text(&ns, "env") {
            match self.environment.var(&var) {
                Some(v) => Ok(v),
                None => Err(KeyError::MissingEnvVar(var)),
            }
        } else {
            let key = Key::ObjectAttr { object: ns, attr: var };
            match self.variables.get(&key) {
                Some(v) => Ok(v),
                None => Err(KeyError::Undefined(key)),
            }
        }
    }

    /// Replaces every `${{ namespace.variable }}` reference in `input` with
    /// its value, then every `~` with the home directory.
    pub fn substitute(&self, input: &str) -> (r: Result<String, KeyError>)
        ensures
            result_view(&r) == expansion(self@, input@),
    {
        let s = substitute_with(self, input);
        assert(lookup_of(self) =~= (|inner: Seq<char>| reference_value(self@, inner)));
        match s {
            Ok(t) => Ok(replace_tilde(t.as_str(), &self.home_dir)),
            Err(e) => Err(e),
        }
    }
}

impl Resolver for Context {
    open spec fn spec_value(&self, inner: Seq<char>) -> Result<Seq<char>, KeyErrorView> {
        reference_value(self@, inner)
    }

    fn value(&self, inner: &Vec<char>) -> (r: Result<String, KeyError>) {
        let text = string_of_range(inner, 0, inner.len());
        assert(inner@.subrange(0, inner@.len() as int) =~= inner@);
        match match_inner(text.as_str()) {
            Some((ns, var)) => self.lookup(ns.as_str(), var.as_str()),
            None => Err(KeyError::Invalid(text)),
        }
    }
}

/// Expands `raw` with the values of `context`, as [`Context::substitute`] does.
pub fn expand_context(context: &Context, raw: &str) -> (r: Result<String, KeyError>)
    ensures
        result_view(&r) == expansion(context@, raw@),
{
    context.substitute(raw)
}

/// Sets `namespace.variable` to `value` in `context`, returning its former value.
pub fn update_context(context: &mut Context, namespace: String, variable: String, value: String) -> (r: Option<String>)
    ensures
        final(context)@ == (ContextView {
            variables: old(context)@.variables.push((stored_key(namespace@, variable@), value@)),
            ..old(context)@
        }),
        match r {
            Some(v) => stack_get(old(context)@.variables, stored_key(namespace@, variable@)) == Some(v@),
            None => stack_get(old(context)@.variables, stored_key(namespace@, variable@)) is None,
        },
{
    context.insert(namespace, variable, value)
}

/// A user, platform and distribution, each of type `T`: plain strings for
/// the local machine, optional requirements in a case.
pub struct Locale<T> {
    pub user: T,
    pub platform: T,
    pub distro: T,
}

impl<T> Locale<T> {
    /// The locale of the three given parts.
    pub fn new(user: T, platform: T, distro: T) -> (r: Self)
        ensures
            r.user == user,
            r.platform == platform,
            r.distro == distro,
    {
        Locale { user, platform, distro }
    }
}

/// Every requirement of `spec` holds of the local machine `local`.
pub open spec fn locale_is_local(spec: &Locale<Option<String>>, local: &Locale<String>) -> bool {
    field_matches(opt_view(spec.user), local.user@) && field_matches(opt_view(spec.platform), local.platform@)
        && field_matches(opt_view(spec.distro), local.distro@)
}

impl Locale<Option<String>> {
    /// Whether every requirement holds of the local machine `local`.
    pub fn is_local(&self, local: &Locale<String>) -> (r: bool)
        ensures
            r == locale_is_local(self, local),
    {
        field_ok(&self.user, &local.user) && field_ok(&self.platform, &local.platform)
            && field_ok(&self.distro, &local.distro)
    }
}

/// A case of a build: its build steps are included when the locale spec
/// matches (`Positive`), does not match (`Negative`), or when no case
/// before it was included (`Default`).
pub enum Case<T> {
    Positive { spec: Locale<Option<String>>, build: T },
    Negative { spec: Locale<Option<String>>, build: T },
    Default { build: T },
}

/// The build steps that case `c` contributes, `default` telling whether no
/// case before it was included.
pub open spec fn case_rule<T>(c: Case<T>, default: bool, local: &Locale<String>) -> Option<T> {
    match c {
        Case::Positive { spec, build } => if locale_is_local(&spec, local) { Some(build) } else { None },
        Case::Negative { spec, build } => if !locale_is_local(&spec, local) { Some(build) } else { None },
        Case::Default { build } => if default { Some(build) } else { None },
    }
}

impl<T> Case<T> {
    /// The build steps this case contributes, `default` telling whether no
    /// case before it was included.
    pub fn rule(self, default: bool, local: &Locale<String>) -> (r: Option<T>)
        ensures
            r == case_rule(self, default, local),
    {
        match self {
            Case::Positive { spec, build } => if spec.is_local(local) { Some(build) } else { None },
            Case::Negative { spec, build } => if !spec.is_local(local) { Some(build) } else { None },
            Case::Default { build } => if default { Some(build) } else { None },
        }
    }
}

/// The build steps contributed by the cases `cs`, in order.
pub open spec fn cases_builds<T>(cs: Seq<Case<T>>, default: bool, local: &Locale<String>) -> Seq<T>
    decreases cs.len(),
{
    if cs.len() == 0 {
        Seq::empty()
    } else {
        match case_rule(cs[0], default, local) {
            Some(b) => seq![b] + cases_builds(cs.drop_first(), false, local),
            None => cases_builds(cs.drop_first(), default, local),
        }
    }
}

/// A `Default` case contributes only when no case before it did: after a
/// `Positive` case whose locale is the local one (or a `Negative` case
/// whose locale is not), the default contributes nothing, and the block
/// gives that case's build alone; after a case that is not taken, the
/// default's build is given when no earlier case was taken.
pub proof fn law_default_case_only_when_nothing_was_taken<T>(
    spec: Locale<Option<String>>,
    build: T,
    fallback: T,
    default: bool,
    local: &Locale<String>,
)
    ensures
        locale_is_local(&spec, local) ==> cases_builds(
            seq![Case::Positive { spec, build }, Case::Default { build: fallback }], default, local) == seq![build],
        !locale_is_local(&spec, local) ==> cases_builds(
            seq![Case::Negative { spec, build }, Case::Default { build: fallback }], default, local) == seq![build],
        !locale_is_local(&spec, local) ==> cases_builds(
            seq![Case::Positive { spec, build }, Case::Default { build: fallback }], default, local)
            == (if default { seq![fallback] } else { Seq::<T>::empty() }),
        locale_is_local(&spec, local) ==> cases_builds(
            seq![Case::Negative { spec, build }, Case::Default { build: fallback }], default, local)
            == (if default { seq![fallback] } else { Seq::<T>::empty() }),
{
    let pos = seq![Case::Positive { spec, build }, Case::Default { build: fallback }];
    let neg = seq![Case::Negative { spec, build }, Case::Default { build: fallback }];
    assert(pos.drop_first() =~= seq![Case::<T>::Default { build: fallback }]);
    assert(neg.drop_first() =~= seq![Case::<T>::Default { build: fallback }]);
    let dflt = seq![Case::<T>::Default { build: fallback }];
    assert(dflt.drop_first() =~= Seq::<Case<T>>::empty());
    assert(dflt[0] == Case::<T>::Default { build: fallback });
    assert(cases_builds(Seq::<Case<T>>::empty(), false, local) == Seq::<T>::empty());
    assert(case_rule(dflt[0], false, local) is None);
    assert(cases_builds(dflt, false, local) == Seq::<T>::empty());
    assert(cases_builds(dflt, true, local) == seq![fallback] + Seq::<T>::empty());
    assert(pos[0] == Case::Positive { spec, build });
    assert(neg[0] == Case::Negative { spec, build });
    assert(seq![build] + Seq::<T>::empty() =~= seq![build]);
    assert(seq![fallback] + Seq::<T>::empty() =~= seq![fallback]);
}

/// The build steps of a block of cases, in order: each case is tried, and a
/// `Default` case contributes only when no case before it did.
pub fn resolve_cases<T>(cases: Vec<Case<T>>, local: &Locale<String>) -> (r: Vec<T>)
    ensures
        r@ == cases_builds(cases@, true, local),
{
    let ghost all = cases@;
    let mut rest = cases;
    let mut out: Vec<T> = Vec::new();
    let mut default = true;
    while rest.len() > 0
        invariant
            cases_builds(all, true, local) == out@ + cases_builds(rest@, default, local),
        decreases rest@.len(),
    {
        let ghost before = rest@;
        let c = rest.remove(0);
        assert(before.drop_first() =~= rest@);
        let ghost old_out = out@;
        match c.rule(default, local) {
            Some(b) => {
                out.push(b);
                default = false;
                assert(old_out + (seq![b] + cases_builds(rest@, false, local)) =~= out@ + cases_builds(rest@, default, local));
            },
            None => {},
        }
    }
    assert(out@ + Seq::<T>::empty() =~= out@);
    out
}

/// After `namespace.variable` is set to `value`, looking it up gives
/// `value`, unless the namespace is `env`, which is read from the environment.
pub proof fn law_lookup_after_insert(c: ContextView, namespace: Seq<char>, variable: Seq<char>, value: Seq<char>)
    requires
        namespace != env_namespace(),
    ensures
        lookup_value(
            ContextView { variables: c.variables.push((stored_key(namespace, variable), value)), ..c },
            namespace,
            variable,
        ) == Ok::<Seq<char>, KeyErrorView>(value),
{
    crate::context::parse::law_get_after_push(c.variables, stored_key(namespace, variable), value);
}

/// Setting a variable leaves the value of every other variable unchanged.
pub proof fn law_insert_keeps_other_variables(
    c: ContextView,
    namespace: Seq<char>,
    variable: Seq<char>,
    value: Seq<char>,
    other_namespace: Seq<char>,
    other_variable: Seq<char>,
)
    requires
        (namespace, variable) != (other_namespace, other_variable),
    ensures
        lookup_value(
            ContextView { variables: c.variables.push((stored_key(namespace, variable), value)), ..c },
            other_namespace,
            other_variable,
        ) == lookup_value(c, other_namespace, other_variable),
{
    crate::context::parse::law_push_keeps_other_keys(c.variables, stored_key(namespace, variable), value,
        stored_key(other_namespace, other_variable));
}

/// Packages of one manager.
pub struct PackageBundle {
    pub manager: pack::PackageManager,
    pub packages: Vec<String>,
}

/// Single resolved build step.
pub enum BuildUnit {
    Link(Link),
    ShellCmd(String),
    Package(pack::Package),
    Bootstrap(pack::PackageManager),
}

/// Mathematical form of a [`BuildUnit`].
pub enum UnitView {
    Link(LinkView),
    ShellCmd(Seq<char>),
    Package { name: Seq<char>, alias: Option<Seq<char>>, managers: Seq<pack::PackageManager> },
    Bootstrap(pack::PackageManager),
}

/// A package taken by its view.
pub open spec fn package_unit(p: pack::Package) -> UnitView {
    UnitView::Package { name: p.name@, alias: opt_view(p.alias), managers: p.managers@ }
}

impl View for BuildUnit {
    type V = UnitView;

    open spec fn view(&self) -> UnitView {
        match self {
            BuildUnit::Link(l) => UnitView::Link(l@),
            BuildUnit::ShellCmd(c) => UnitView::ShellCmd(c@),
            BuildUnit::Package(p) => package_unit(*p),
            BuildUnit::Bootstrap(m) => UnitView::Bootstrap(*m),
        }
    }
}

/// Build steps as written in a build file.
pub enum BuildSet {
    /// Cases, each contributing its build steps or not.
    Case(Vec<Case<Vec<BuildSet>>>),
    /// Links, expanded.
    Link(Vec<Link>),
    /// Shell commands.
    Run(Vec<String>),
    /// Packages.
    Install(Vec<pack::Package>),
    /// Packages of one manager.
    Bundle(PackageBundle),
    /// Package managers to bootstrap.
    Bootstrap(Vec<pack::PackageManager>),
}

/// The units of the links `ls`, expanded in `c`, or the first error.
pub open spec fn links_units(ls: Seq<Link>, c: ContextView) -> Result<Seq<UnitView>, KeyErrorView>
    decreases ls.len(),
{
    if ls.len() == 0 {
        Ok(Seq::empty())
    } else {
        match links_units(ls.drop_last(), c) {
            Err(e) => Err(e),
            Ok(rest) => match link_expansion(ls.last()@, c) {
                Err(e) => Err(e),
                Ok(l) => Ok(rest.push(UnitView::Link(l))),
            },
        }
    }
}

/// `u` before what `rest` gives, or the first error.
pub open spec fn then_units(u: Result<Seq<UnitView>, KeyErrorView>, rest: Result<Seq<UnitView>, KeyErrorView>) -> Result<Seq<UnitView>, KeyErrorView> {
    match u {
        Err(e) => Err(e),
        Ok(a) => match rest {
            Err(e) => Err(e),
            Ok(b) => Ok(a + b),
        },
    }
}

/// The units of the build steps `s` in `c` on the machine `local`.
pub open spec fn set_units(s: BuildSet, c: ContextView, local: &Locale<String>) -> Result<Seq<UnitView>, KeyErrorView>
    decreases s, 0int,
{
    match s {
        BuildSet::Case(cases) => cases_units(cases@, true, c, local),
        BuildSet::Link(links) => links_units(links@, c),
        BuildSet::Run(cmds) => Ok(cmds@.map_values(|x: String| UnitView::ShellCmd(x@))),
        BuildSet::Install(ps) => Ok(ps@.map_values(|p: pack::Package| package_unit(p))),
        BuildSet::Bundle(b) => Ok(b.packages@.map_values(|n: String| UnitView::Package {
            name: n@,
            alias: None,
            managers: seq![b.manager],
        })),
        BuildSet::Bootstrap(ms) => Ok(ms@.map_values(|m: pack::PackageManager| UnitView::Bootstrap(m))),
    }
}

/// The units of the build step lists `ss`, concatenated in order.
pub open spec fn sets_units(ss: Seq<BuildSet>, c: ContextView, local: &Locale<String>) -> Result<Seq<UnitView>, KeyErrorView>
    decreases ss, 0int,
{
    if ss.len() == 0 {
        Ok(Seq::empty())
    } else {
        then_units(set_units(ss[0], c, local), sets_units(ss.drop_first(), c, local))
    }
}

/// The units of a block of cases: each case is tried in order, and a
/// `Default` case contributes only when no case before it did.
pub open spec fn cases_units(cs: Seq<Case<Vec<BuildSet>>>, default: bool, c: ContextView, local: &Locale<String>) -> Result<Seq<UnitView>, KeyErrorView>
    decreases cs, 0int,
{
    if cs.len() == 0 {
        Ok(Seq::empty())
    } else {
        match cs[0] {
            Case::Positive { spec, build } => if locale_is_local(&spec, local) {
                then_units(sets_units(build@, c, local), cases_units(cs.drop_first(), false, c, local))
            } else {
                cases_units(cs.drop_first(), default, c, local)
            },
            Case::Negative { spec, build } => if !locale_is_local(&spec, local) {
                then_units(sets_units(build@, c, local), cases_units(cs.drop_first(), false, c, local))
            } else {
                cases_units(cs.drop_first(), default, c, local)
            },
            Case::Default { build } => if default {
                then_units(sets_units(build@, c, local), cases_units(cs.drop_first(), false, c, local))
            } else {
                cases_units(cs.drop_first(), default, c, local)
            },
        }
    }
}

/// A block of cases yields the units of the `Default` case's build only
/// when no case before it was taken: after a taken `Positive` case (its
/// locale is the local one) or a taken `Negative` case (its locale is not),
/// the block yields exactly the units of that case's build.
pub proof fn law_default_units_only_when_nothing_was_taken(
    spec: Locale<Option<String>>,
    build: Vec<BuildSet>,
    fallback: Vec<BuildSet>,
    default: bool,
    c: ContextView,
    local: &Locale<String>,
)
    ensures
        locale_is_local(&spec, local) ==> cases_units(
            seq![Case::Positive { spec, build }, Case::Default { build: fallback }], default, c, local) == sets_units(build@, c, local),
        !locale_is_local(&spec, local) ==> cases_units(
            seq![Case::Negative { spec, build }, Case::Default { build: fallback }], default, c, local) == sets_units(build@, c, local),
        !locale_is_local(&spec, local) ==> cases_units(
            seq![Case::Positive { spec, build }, Case::Default { build: fallback }], default, c, local)
            == (if default { sets_units(fallback@, c, local) } else { Ok(Seq::<UnitView>::empty()) }),
        locale_is_local(&spec, local) ==> cases_units(
            seq![Case::Negative { spec, build }, Case::Default { build: fallback }], default, c, local)
            == (if default { sets_units(fallback@, c, local) } else { Ok(Seq::<UnitView>::empty()) }),
{
    let pos = seq![Case::Positive { spec, build }, Case::Default { build: fallback }];
    let neg = seq![Case::Negative { spec, build }, Case::Default { build: fallback }];
    let dflt = seq![Case::<Vec<BuildSet>>::Default { build: fallback }];
    assert(pos.drop_first() =~= dflt);
    assert(neg.drop_first() =~= dflt);
    assert(dflt.drop_first() =~= Seq::<Case<Vec<BuildSet>>>::empty());
    assert(dflt[0] == Case::<Vec<BuildSet>>::Default { build: fallback });
    assert(cases_units(Seq::<Case<Vec<BuildSet>>>::empty(), false, c, local) == Ok::<Seq<UnitView>, KeyErrorView>(Seq::empty()));
    assert(cases_units(dflt, false, c, local) == Ok::<Seq<UnitView>, KeyErrorView>(Seq::empty()));
    assert(cases_units(dflt, true, c, local) == then_units(sets_units(fallback@, c, local), Ok(Seq::empty())));
    assert(pos[0] == Case::Positive { spec, build });
    assert(neg[0] == Case::Negative { spec, build });
    lemma_then_units_empty(sets_units(build@, c, local));
    lemma_then_units_empty(sets_units(fallback@, c, local));
}

proof fn lemma_then_units_empty(u: Result<Seq<UnitView>, KeyErrorView>)
    ensures
        then_units(u, Ok(Seq::empty())) == u,
{
    if let Ok(a) = u {
        assert(a + Seq::<UnitView>::empty() =~= a);
    }
}

/// Units taken by their views.
pub open spec fn units_of(v: Seq<BuildUnit>) -> Seq<UnitView> {
    v.map_values(|u: BuildUnit| u@)
}

/// A resolution result taken by its view.
pub open spec fn units_result(r: &Result<Vec<BuildUnit>, KeyError>) -> Result<Seq<UnitView>, KeyErrorView> {
    match r {
        Ok(v) => Ok(units_of(v@)),
        Err(e) => Err(e@),
    }
}

fn copy_package(p: &pack::Package) -> (r: pack::Package)
    ensures
        package_unit(r) == package_unit(*p),
{
    let managers = p.managers.clone();
    assert(managers@ =~= p.managers@);
    pack::Package { name: crate::text::copy_string(&p.name), alias: crate::context::copy_opt(&p.alias), managers }
}

/// Appends `more` to `out`.
fn append_units(out: &mut Vec<BuildUnit>, more: Vec<BuildUnit>)
    ensures
        units_of(final(out)@) == units_of(old(out)@) + units_of(more@),
{
    let mut more = more;
    let ghost a = out@;
    let ghost b = more@;
    out.append(&mut more);
    assert(units_of(out@) =~= units_of(a) + units_of(b));
}

impl BuildSet {
    /// Resolves the build steps in `context` on the machine `local`.
    pub fn resolve(&self, context: &Context, local: &Locale<String>) -> (r: Result<Vec<BuildUnit>, KeyError>)
        ensures
            units_result(&r) == set_units(*self, context@, local),
        decreases self, 0int,
    {
        match self {
            BuildSet::Case(cases) => Self::resolve_cases(cases, context, local),
            BuildSet::Link(links) => {
                let mut out: Vec<BuildUnit> = Vec::new();
                let mut i: usize = 0;
                assert(links@.take(0) =~= Seq::<Link>::empty());
                assert(units_of(out@) =~= Seq::<UnitView>::empty());
                while i < links.len()
                    invariant
                        i <= links@.len(),
                        links_units(links@.take(i as int), context@) == Ok::<Seq<UnitView>, KeyErrorView>(units_of(out@)),
                        set_units(*self, context@, local) == links_units(links@, context@),
                    decreases links@.len() - i,
                {
                    assert(links@.take(i + 1).drop_last() =~= links@.take(i as int));
                    assert(links@.take(i + 1).last() == links@[i as int]);
                    match links[i].expand(context) {
                        Ok(l) => {
                            let ghost before = out@;
                            out.push(BuildUnit::Link(l));
                            assert(units_of(out@) =~= units_of(before).push(UnitView::Link(l@)));
                        },
                        Err(e) => {
                            assert(links_units(links@.take(i + 1), context@) == Err::<Seq<UnitView>, KeyErrorView>(e@));
                            proof {
                                lemma_links_fail_after(links@, context@, i as int + 1);
                            }
                            return Err(e);
                        },
                    }
                    i = i + 1;
                }
                assert(links@.take(links@.len() as int) =~= links@);
                Ok(out)
            },
            BuildSet::Run(cmds) => {
                let mut out: Vec<BuildUnit> = Vec::new();
                let mut i: usize = 0;
                while i < cmds.len()
                    invariant
                        i <= cmds@.len(),
                        units_of(out@) == cmds@.take(i as int).map_values(|x: String| UnitView::ShellCmd(x@)),
                    decreases cmds@.len() - i,
                {
                    let ghost before = out@;
                    let c = crate::text::copy_string(&cmds[i]);
                    out.push(BuildUnit::ShellCmd(c));
                    assert(cmds@.take(i + 1) =~= cmds@.take(i as int).push(cmds@[i as int]));
                    assert(units_of(out@) =~= units_of(before).push(UnitView::ShellCmd(c@)));
                    assert(units_of(out@) =~= cmds@.take(i + 1).map_values(|x: String| UnitView::ShellCmd(x@)));
                    i = i + 1;
                }
                assert(cmds@.take(cmds@.len() as int) =~= cmds@);
                Ok(out)
            },
            BuildSet::Install(ps) => {
                let mut out: Vec<BuildUnit> = Vec::new();
                let mut i: usize = 0;
                while i < ps.len()
                    invariant
                        i <= ps@.len(),
                        units_of(out@) == ps@.take(i as int).map_values(|p: pack::Package| package_unit(p)),
                    decreases ps@.len() - i,
                {
                    let ghost before = out@;
                    let p = copy_package(&ps[i]);
                    out.push(BuildUnit::Package(p));
                    assert(ps@.take(i + 1) =~= ps@.take(i as int).push(ps@[i as int]));
                    assert(units_of(out@) =~= units_of(before).push(package_unit(p)));
                    assert(units_of(out@) =~= ps@.take(i + 1).map_values(|p: pack::Package| package_unit(p)));
                    i = i + 1;
                }
                assert(ps@.take(ps@.len() as int) =~= ps@);
                Ok(out)
            },
            BuildSet::Bundle(b) => {
                let mut out: Vec<BuildUnit> = Vec::new();
                let mut i: usize = 0;
                let ghost f = |n: String| UnitView::Package { name: n@, alias: None, managers: seq![b.manager] };
                while i < b.packages.len()
                    invariant
                        i <= b.packages@.len(),
                        f == (|n: String| UnitView::Package { name: n@, alias: None, managers: seq![b.manager] }),
                        units_of(out@) == b.packages@.take(i as int).map_values(f),
                    decreases b.packages@.len() - i,
                {
                    let ghost before = out@;
                    let mut managers: Vec<pack::PackageManager> = Vec::new();
                    managers.push(b.manager);
                    let p = pack::Package { name: crate::text::copy_string(&b.packages[i]), alias: None, managers };
                    assert(p.managers@ =~= seq![b.manager]);
                    out.push(BuildUnit::Package(p));
                    assert(b.packages@.take(i + 1) =~= b.packages@.take(i as int).push(b.packages@[i as int]));
                    assert(units_of(out@) =~= units_of(before).push(f(b.packages@[i as int])));
                    assert(units_of(out@) =~= b.packages@.take(i + 1).map_values(f));
                    i = i + 1;
                }
                assert(b.packages@.take(b.packages@.len() as int) =~= b.packages@);
                Ok(out)
            },
            BuildSet::Bootstrap(ms) => {
                let mut out: Vec<BuildUnit> = Vec::new();
                let mut i: usize = 0;
                while i < ms.len()
                    invariant
                        i <= ms@.len(),
                        units_of(out@) == ms@.take(i as int).map_values(|m: pack::PackageManager| UnitView::Bootstrap(m)),
                    decreases ms@.len() - i,
                {
                    let ghost before = out@;
                    out.push(BuildUnit::Bootstrap(ms[i]));
                    assert(ms@.take(i + 1) =~= ms@.take(i as int).push(ms@[i as int]));
                    assert(units_of(out@) =~= units_of(before).push(UnitView::Bootstrap(ms@[i as int])));
                    assert(units_of(out@) =~= ms@.take(i + 1).map_values(|m: pack::PackageManager| UnitView::Bootstrap(m)));
                    i = i + 1;
                }
                assert(ms@.take(ms@.len() as int) =~= ms@);
                Ok(out)
            },
        }
    }

    /// Resolves the lists of build steps `sets` in order, concatenating their units.
    pub fn resolve_all(sets: &Vec<BuildSet>, context: &Context, local: &Locale<String>) -> (r: Result<Vec<BuildUnit>, KeyError>)
        ensures
            units_result(&r) == sets_units(sets@, context@, local),
        decreases sets, 0int,
    {
        let mut out: Vec<BuildUnit> = Vec::new();
        let mut i: usize = 0;
        assert(sets@.skip(0) =~= sets@);
        assert(units_of(out@) =~= Seq::<UnitView>::empty());
        assert(then_units(Ok(Seq::<UnitView>::empty()), sets_units(sets@, context@, local)) == sets_units(sets@, context@, local)) by {
            match sets_units(sets@, context@, local) {
                Ok(b) => { assert(Seq::<UnitView>::empty() + b =~= b); },
                Err(_) => {},
            }
        }
        while i < sets.len()
            invariant
                i <= sets@.len(),
                sets_units(sets@, context@, local) == then_units(Ok(units_of(out@)), sets_units(sets@.skip(i as int), context@, local)),
            decreases sets@.len() - i,
        {
            assert(sets@.skip(i as int)[0] == sets@[i as int]);
            assert(sets@.skip(i as int).drop_first() =~= sets@.skip(i + 1));
            match sets[i].resolve(context, local) {
                Ok(more) => {
                    let ghost a = units_of(out@);
                    let ghost b = units_of(more@);
                    append_units(&mut out, more);
                    proof {
                        match sets_units(sets@.skip(i + 1), context@, local) {
                            Ok(c) => { assert(a + (b + c) =~= (a + b) + c); },
                            Err(_) => {},
                        }
                    }
                },
                Err(e) => return Err(e),
            }
            i = i + 1;
        }
        assert(sets@.skip(sets@.len() as int) =~= Seq::<BuildSet>::empty());
        assert(units_of(out@) + Seq::<UnitView>::empty() =~= units_of(out@));
        Ok(out)
    }

    fn resolve_cases(cases: &Vec<Case<Vec<BuildSet>>>, context: &Context, local: &Locale<String>) -> (r: Result<Vec<BuildUnit>, KeyError>)
        ensures
            units_result(&r) == cases_units(cases@, true, context@, local),
        decreases cases, 0int,
    {
        let mut out: Vec<BuildUnit> = Vec::new();
        let mut default = true;
        let mut i: usize = 0;
        assert(cases@.skip(0) =~= cases@);
        assert(units_of(out@) =~= Seq::<UnitView>::empty());
        assert(then_units(Ok(Seq::<UnitView>::empty()), cases_units(cases@, true, context@, local)) == cases_units(cases@, true, context@, local)) by {
            match cases_units(cases@, true, context@, local) {
                Ok(b) => { assert(Seq::<UnitView>::empty() + b =~= b); },
                Err(_) => {},
            }
        }
        while i < cases.len()
            invariant
                i <= cases@.len(),
                cases_units(cases@, true, context@, local) == then_units(Ok(units_of(out@)), cases_units(cases@.skip(i as int), default, context@, local)),
            decreases cases@.len() - i,
        {
            assert(cases@.skip(i as int)[0] == cases@[i as int]);
            assert(cases@.skip(i as int).drop_first() =~= cases@.skip(i + 1));
            let build = match &cases[i] {
                Case::Positive { spec, build } => if spec.is_local(local) { Some(build) } else { None },
                Case::Negative { spec, build } => if !spec.is_local(local) { Some(build) } else { None },
                Case::Default { build } => if default { Some(build) } else { None },
            };
            match build {
                Some(b) => {
                    match Self::resolve_all(b, context, local) {
                        Ok(more) => {
                            let ghost a = units_of(out@);
                            let ghost m = units_of(more@);
                            append_units(&mut out, more);
                            proof {
                                match cases_units(cases@.skip(i + 1), false, context@, local) {
                                    Ok(c) => { assert(a + (m + c) =~= (a + m) + c); },
                                    Err(_) => {},
                                }
                            }
                            default = false;
                        },
                        Err(e) => return Err(e),
                    }
                },
                None => {},
            }
            i = i + 1;
        }
        assert(cases@.skip(cases@.len() as int) =~= Seq::<Case<Vec<BuildSet>>>::empty());
        assert(units_of(out@) + Seq::<UnitView>::empty() =~= units_of(out@));
        Ok(out)
    }
}

proof fn lemma_links_fail_after(ls: Seq<Link>, c: ContextView, n: int)
    requires
        0 < n <= ls.len(),
        links_units(ls.take(n), c) is Err,
    ensures
        links_units(ls, c) == links_units(ls.take(n), c),
    decreases ls.len() - n,
{
    if n < ls.len() {
        assert(ls.take(n + 1).drop_last() =~= ls.take(n));
        lemma_links_fail_after(ls, c, n + 1);
    } else {
        assert(ls.take(n) =~= ls);
    }
}

/// Resolving the lists of build steps `a` followed by `b` gives the units
/// of `a` followed by those of `b`: the order of build steps is preserved.
pub proof fn law_build_sets_preserve_order(a: Seq<BuildSet>, b: Seq<BuildSet>, c: ContextView, local: &Locale<String>)
    ensures
        sets_units(a + b, c, local) == then_units(sets_units(a, c, local), sets_units(b, c, local)),
    decreases a.len(),
{
    if a.len() == 0 {
        assert(a + b =~= b);
        match sets_units(b, c, local) {
            Ok(x) => { assert(Seq::<UnitView>::empty() + x =~= x); },
            Err(_) => {},
        }
    } else {
        assert((a + b)[0] == a[0]);
        assert((a + b).drop_first() =~= a.drop_first() + b);
        law_build_sets_preserve_order(a.drop_first(), b, c, local);
        match set_units(a[0], c, local) {
            Ok(x) => match sets_units(a.drop_first(), c, local) {
                Ok(y) => match sets_units(b, c, local) {
                    Ok(z) => { assert(x + (y + z) =~= (x + y) + z); },
                    Err(_) => {},
                },
                Err(_) => {},
            },
            Err(_) => {},
        }
    }
}

proof fn lemma_first_dot_after(s: Seq<char>, i: int, d: int)
    requires
        0 <= i <= d < s.len(),
        s[d] == '.',
        forall|k: int| i <= k < d ==> #[trigger] s[k] != '.',
    ensures
        first_dot(s, i) == d,
    decreases d - i,
{
    if i < d {
        lemma_first_dot_after(s, i + 1, d);
    }
}

/// A reference `namespace.variable` names that namespace and variable: for
/// names `ns` and `var` (`[a-zA-Z_][a-zA-Z_0-9]*`), the text `ns.var` reads
/// as `(ns, var)`. Its value is the environment variable `var` when `ns` is
/// `env`, and otherwise the value stored for `ns.var`.
pub proof fn law_reference_names(ns: Seq<char>, var: Seq<char>, c: ContextView)
    requires
        is_name(ns),
        is_name(var),
    ensures
        reference_parts(ns + seq!['.'] + var) == Some((ns, var)),
        reference_value(c, ns + seq!['.'] + var) == lookup_value(c, ns, var),
        lookup_value(c, seq!['e', 'n', 'v'], var) == match env_lookup(c.environment, var) {
            Some(v) => Ok::<Seq<char>, KeyErrorView>(v),
            None => Err(KeyErrorView::MissingEnvVar(var)),
        },
        ns != seq!['e', 'n', 'v'] ==> lookup_value(c, ns, var) == match stack_get(c.variables, KeyView::ObjectAttr { object: ns, attr: var }) {
            Some(v) => Ok::<Seq<char>, KeyErrorView>(v),
            None => Err(KeyErrorView::Undefined(KeyView::ObjectAttr { object: ns, attr: var })),
        },
{
    let s = ns + seq!['.'] + var;
    let n = s.len() as int;
    assert(s[0] == ns[0]);
    assert(name_char(ns[0]));
    assert(!space_char(s[0]));
    assert(s[n - 1] == var[var.len() - 1]);
    assert(name_char(var[var.len() - 1]));
    assert(!space_char(s[n - 1]));
    assert(skip_space(s, 0) == 0);
    assert(skip_space_back(s, 0, n) == n);
    assert(trim(s) =~= s);
    assert forall|k: int| 0 <= k < ns.len() implies #[trigger] s[k] != '.' by {
        assert(s[k] == ns[k]);
        assert(name_char(ns[k]));
    }
    assert(s[ns.len() as int] == '.');
    lemma_first_dot_after(s, 0, ns.len() as int);
    assert(s.take(ns.len() as int) =~= ns);
    assert(s.skip(ns.len() as int + 1) =~= var);
}

} // verus!
