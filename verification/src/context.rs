//! Resolution state: the local platform, the declared package managers and
//! the substitution variables.
pub mod parse;

use vstd::prelude::*;
use indexmap::IndexMap;
use crate::text::{copy_string, owned, push_char, chars_of, string_of_range};
use crate::context::parse::{
    Environment, KeyStack, KeyView, KeyError, KeyErrorView, Resolver, parse_key, stack_get, key_get,
    result_view, substitute, substitution, lookup_of,
};
use crate::specs::package::{PackageManager, PackageManagerView};

verus! {

#[verifier::external_type_specification]
#[verifier::external_body]
#[verifier::reject_recursive_types(K)]
#[verifier::reject_recursive_types(V)]
#[verifier::reject_recursive_types(S)]
pub struct ExIndexMap<K, V, S>(IndexMap<K, V, S>);

/// The entries of a map of package managers, in the map's order.
pub uninterp spec fn manager_entries(m: IndexMap<String, PackageManager>) -> Seq<(Seq<char>, PackageManagerView)>;

/// Index of the first entry of `e` named `name`, or `-1`.
pub open spec fn entry_index(e: Seq<(Seq<char>, PackageManagerView)>, name: Seq<char>, i: int) -> int
    decreases e.len() - i,
{
    if i < 0 || i >= e.len() {
        -1
    } else if e[i].0 == name {
        i
    } else {
        entry_index(e, name, i + 1)
    }
}

/// The entries after inserting `v` under `k`: an existing entry keeps its
/// place and takes the new value, a new entry goes last.
pub open spec fn entries_insert(
    e: Seq<(Seq<char>, PackageManagerView)>,
    k: Seq<char>,
    v: PackageManagerView,
) -> Seq<(Seq<char>, PackageManagerView)> {
    let i = entry_index(e, k, 0);
    if i >= 0 {
        e.update(i, (k, v))
    } else {
        e.push((k, v))
    }
}

/// The names in a list of entries, in order.
pub open spec fn entry_names(e: Seq<(Seq<char>, PackageManagerView)>) -> Seq<Seq<char>> {
    e.map_values(|x: (Seq<char>, PackageManagerView)| x.0)
}

/// `IndexMap::new`: a map without entries.
#[verifier::external_body]
pub(crate) fn new_managers() -> (m: IndexMap<String, PackageManager>)
    ensures
        manager_entries(m) == Seq::<(Seq<char>, PackageManagerView)>::empty(),
{
    IndexMap::new()
}

/// `IndexMap::insert`: an existing key keeps its place and takes the new
/// value; a new key is added last.
#[verifier::external_body]
pub(crate) fn insert_manager(m: &mut IndexMap<String, PackageManager>, name: String, manager: PackageManager)
    ensures
        manager_entries(*final(m)) == entries_insert(manager_entries(*old(m)), name@, manager@),
{
    m.insert(name, manager);
}

/// `IndexMap::contains_key`: whether some entry has the key `name`.
#[verifier::external_body]
pub(crate) fn has_manager(m: &IndexMap<String, PackageManager>, name: &String) -> (r: bool)
    ensures
        r == entry_names(manager_entries(*m)).contains(name@),
{
    m.contains_key(name)
}

/// `IndexMap::keys`: the keys of the map, in the map's order.
#[verifier::external_body]
pub(crate) fn manager_names(m: &IndexMap<String, PackageManager>) -> (r: Vec<String>)
    ensures
        r@.map_values(|s: String| s@) == entry_names(manager_entries(*m)),
{
    m.keys().cloned().collect()
}

/// `IndexMap::get_index_of`: the position of the entry with the key `name`.
#[verifier::external_body]
pub(crate) fn manager_index(m: &IndexMap<String, PackageManager>, name: &String) -> (r: Option<usize>)
    ensures
        match r {
            Some(i) => i == entry_index(manager_entries(*m), name@, 0) && i < manager_entries(*m).len(),
            None => entry_index(manager_entries(*m), name@, 0) == -1,
        },
{
    m.get_index_of(name)
}

/// `IndexMap`'s indexing by position: the value of entry `i`.
#[verifier::external_body]
pub(crate) fn manager_at(m: &IndexMap<String, PackageManager>, i: usize) -> (r: &PackageManager)
    requires
        i < manager_entries(*m).len(),
    ensures
        r@ == manager_entries(*m)[i as int].1,
{
    &m[i]
}

/// Local user, platform and distribution.
pub struct Locale {
    pub user: String,
    pub platform: String,
    pub distro: String,
}

/// Mathematical form of a [`Locale`].
pub struct LocaleView {
    pub user: Seq<char>,
    pub platform: Seq<char>,
    pub distro: Seq<char>,
}

impl View for Locale {
    type V = LocaleView;

    open spec fn view(&self) -> LocaleView {
        LocaleView { user: self.user@, platform: self.platform@, distro: self.distro@ }
    }
}

/// `s` in lower case (`str::to_lowercase`).
pub uninterp spec fn lowercase(s: Seq<char>) -> Seq<char>;

/// `str::to_lowercase`; the contract names the result, the Unicode case
/// tables stay the standard library's.
#[verifier::external_body]
fn to_lowercase(s: &str) -> (r: String)
    ensures
        r@ == lowercase(s@),
{
    s.to_lowercase()
}

/// `whoami::username`: the name of the user running the program. It
/// depends on the machine, so nothing is stated of it.
#[verifier::external_body]
fn whoami_username() -> String {
    whoami::username()
}

/// `whoami::platform`, printed with its `Display` implementation. It
/// depends on the machine, so nothing is stated of it.
#[verifier::external_body]
fn whoami_platform() -> String {
    whoami::platform().to_string()
}

/// `whoami::distro`: the name and version of the operating system. It
/// depends on the machine, so nothing is stated of it.
#[verifier::external_body]
fn whoami_distro() -> String {
    whoami::distro()
}

/// The part of `s` before its first space (all of `s` when it has none).
pub open spec fn first_word(s: Seq<char>) -> Seq<char>
    decreases s.len(),
{
    if s.len() == 0 || s[0] == ' ' {
        Seq::empty()
    } else {
        seq![s[0]] + first_word(s.drop_first())
    }
}

/// Computes [`first_word`].
pub fn first_word_of(s: &str) -> (r: String)
    ensures
        r@ == first_word(s@),
{
    let v = chars_of(s);
    let mut i: usize = 0;
    assert(v@.skip(0) =~= v@);
    assert(v@.take(0) + first_word(v@) =~= first_word(v@));
    while i < v.len() && v[i] != ' '
        invariant
            i <= v@.len(),
            v@ == s@,
            forall|j: int| 0 <= j < i ==> v@[j] != ' ',
            first_word(v@) == v@.take(i as int) + first_word(v@.skip(i as int)),
        decreases v@.len() - i,
    {
        assert(v@.skip(i as int).drop_first() =~= v@.skip(i + 1));
        assert(v@.take(i + 1) =~= v@.take(i as int) + seq![v@[i as int]]);
        i = i + 1;
    }
    assert(first_word(v@.skip(i as int)) =~= Seq::<char>::empty());
    let r = string_of_range(&v, 0, i);
    assert(r@ =~= v@.take(i as int) + first_word(v@.skip(i as int)));
    r
}

/// The locale detected from the user name, the platform name and the
/// distribution name: the user as it is, the lower-cased platform name, and
/// the lower-cased first word of the distribution name.
pub open spec fn detected_locale(user: Seq<char>, platform_name: Seq<char>, distro_name: Seq<char>) -> LocaleView {
    LocaleView { user, platform: lowercase(platform_name), distro: lowercase(first_word(distro_name)) }
}

/// The locale `detected` with each field replaced by its override, when given.
pub open spec fn overridden_locale(
    user: Option<Seq<char>>,
    platform: Option<Seq<char>>,
    distro: Option<Seq<char>>,
    detected: LocaleView,
) -> LocaleView {
    LocaleView {
        user: match user { Some(u) => u, None => detected.user },
        platform: match platform { Some(p) => p, None => detected.platform },
        distro: match distro { Some(d) => d, None => detected.distro },
    }
}

impl Locale {
    /// The locale of a machine whose user is `user`, whose platform is
    /// named `platform_name` and whose distribution is named `distro_name`.
    pub fn detected(user: String, platform_name: String, distro_name: String) -> (r: Locale)
        ensures
            r@ == detected_locale(user@, platform_name@, distro_name@),
    {
        let platform = to_lowercase(platform_name.as_str());
        let word = first_word_of(distro_name.as_str());
        let distro = to_lowercase(word.as_str());
        Locale { user, platform, distro }
    }

    /// The locale `detected` with each field replaced by its override, when given.
    pub fn with_detected(user: Option<String>, platform: Option<String>, distro: Option<String>, detected: Locale) -> (r: Locale)
        ensures
            r@ == overridden_locale(opt_view(user), opt_view(platform), opt_view(distro), detected@),
    {
        let Locale { user: du, platform: dp, distro: dd } = detected;
        Locale {
            user: match user { Some(u) => u, None => du },
            platform: match platform { Some(p) => p, None => dp },
            distro: match distro { Some(d) => d, None => dd },
        }
    }

    /// The local user, platform and distribution, each replaced by its
    /// override when given: [`Locale::with_detected`] over
    /// [`Locale::detected`] of what `whoami` reports for this machine
    /// (its user name, its platform's name and its distribution's name).
    pub fn with_overrides(user: Option<String>, platform: Option<String>, distro: Option<String>) -> (r: Locale)
        ensures
            exists|u: Seq<char>, p: Seq<char>, d: Seq<char>|
                r@ == overridden_locale(opt_view(user), opt_view(platform), opt_view(distro), detected_locale(u, p, d)),
    {
        let user_name = whoami_username();
        let platform_name = whoami_platform();
        let distro_name = whoami_distro();
        let ghost (u, p, d) = (user_name@, platform_name@, distro_name@);
        let detected = Locale::detected(user_name, platform_name, distro_name);
        let r = Locale::with_detected(user, platform, distro, detected);
        assert(r@ == overridden_locale(opt_view(user), opt_view(platform), opt_view(distro), detected_locale(u, p, d)));
        r
    }

    /// A copy of the locale.
    pub fn duplicate(&self) -> (r: Locale)
        ensures
            r@ == self@,
    {
        Locale {
            user: copy_string(&self.user),
            platform: copy_string(&self.platform),
            distro: copy_string(&self.distro),
        }
    }
}

/// Optional requirements on the local user, platform and distribution.
pub struct LocaleSpec {
    pub user: Option<String>,
    pub platform: Option<String>,
    pub distro: Option<String>,
}

/// An optional string taken by its view.
pub open spec fn opt_view(s: Option<String>) -> Option<Seq<char>> {
    match s {
        Some(s) => Some(s@),
        None => None,
    }
}

/// Mathematical form of a [`LocaleSpec`].
pub struct LocaleSpecView {
    pub user: Option<Seq<char>>,
    pub platform: Option<Seq<char>>,
    pub distro: Option<Seq<char>>,
}

impl View for LocaleSpec {
    type V = LocaleSpecView;

    open spec fn view(&self) -> LocaleSpecView {
        LocaleSpecView { user: opt_view(self.user), platform: opt_view(self.platform), distro: opt_view(self.distro) }
    }
}

/// An optional requirement holds of `actual`: it is absent or equal to it.
pub open spec fn field_matches(required: Option<Seq<char>>, actual: Seq<char>) -> bool {
    match required {
        Some(r) => r == actual,
        None => true,
    }
}

/// Every requirement of `spec` holds of `locale`.
pub open spec fn locale_matches(spec: LocaleSpecView, locale: LocaleView) -> bool {
    field_matches(spec.user, locale.user) && field_matches(spec.platform, locale.platform)
        && field_matches(spec.distro, locale.distro)
}

pub(crate) fn field_ok(required: &Option<String>, actual: &String) -> (r: bool)
    ensures
        r == field_matches(opt_view(*required), actual@),
{
    match required {
        Some(r) => *r == *actual,
        None => true,
    }
}

impl LocaleSpec {
    /// Whether every requirement holds of `locale`.
    pub fn matches(&self, locale: &Locale) -> (r: bool)
        ensures
            r == locale_matches(self@, locale@),
    {
        field_ok(&self.user, &locale.user) && field_ok(&self.platform, &locale.platform)
            && field_ok(&self.distro, &locale.distro)
    }

    /// A copy of the requirements.
    pub fn duplicate(&self) -> (r: LocaleSpec)
        ensures
            r@ == self@,
    {
        LocaleSpec {
            user: copy_opt(&self.user),
            platform: copy_opt(&self.platform),
            distro: copy_opt(&self.distro),
        }
    }
}

/// A copy of an optional string.
pub fn copy_opt(s: &Option<String>) -> (r: Option<String>)
    ensures
        opt_view(r) == opt_view(*s),
{
    match s {
        Some(s) => Some(copy_string(s)),
        None => None,
    }
}

/// A requirement-free spec matches every locale.
pub proof fn law_empty_spec_matches_all(locale: LocaleView)
    ensures
        locale_matches(LocaleSpecView { user: None, platform: None, distro: None }, locale),
{
}

/// A spec that requires exactly the fields of a locale matches that locale.
pub proof fn law_own_spec_matches(locale: LocaleView)
    ensures
        locale_matches(
            LocaleSpecView { user: Some(locale.user), platform: Some(locale.platform), distro: Some(locale.distro) },
            locale,
        ),
{
}

/// Dropping a requirement never turns a match into a mismatch.
pub proof fn law_fewer_requirements_match_more(spec: LocaleSpecView, locale: LocaleView)
    requires
        locale_matches(spec, locale),
    ensures
        locale_matches(LocaleSpecView { user: None, ..spec }, locale),
        locale_matches(LocaleSpecView { platform: None, ..spec }, locale),
        locale_matches(LocaleSpecView { distro: None, ..spec }, locale),
{
}

/// `dirs::home_dir` as a string; `None` when it is unknown or not valid
/// UTF-8. It depends on the machine, so nothing is stated of it.
#[verifier::external_body]
pub(crate) fn dirs_home_dir() -> Option<String> {
    dirs::home_dir().and_then(|p| p.to_str().map(String::from))
}

/// The home directory given the one the system reports: that one, or `~`
/// when none is known.
pub open spec fn home_of(h: Option<Seq<char>>) -> Seq<char> {
    match h {
        Some(h) => h,
        None => seq!['~'],
    }
}

/// Computes [`home_of`].
pub fn home_from(h: Option<String>) -> (r: String)
    ensures
        r@ == home_of(opt_view(h)),
{
    proof {
        reveal_strlit("~");
        assert("~"@ =~= seq!['~']);
    }
    match h {
        Some(h) => h,
        None => owned("~"),
    }
}

/// Resolution state shared by all build steps.
pub struct Context {
    /// Local user, platform and distribution.
    pub locale: Locale,
    /// Package managers declared so far, by name, in declaration order.
    pub managers: IndexMap<String, PackageManager>,
    /// Substitution variables.
    pub variables: KeyStack,
    /// Replacement of `~` in paths.
    pub home_dir: String,
    /// Values of `env:` keys.
    pub environment: Environment,
}

/// Value of the reference text `inner` in the variables `vars`, falling
/// back to the environment `env`.
pub open spec fn variable_value(
    vars: Seq<(KeyView, Seq<char>)>,
    env: Seq<(Seq<char>, Seq<char>)>,
    inner: Seq<char>,
) -> Result<Seq<char>, KeyErrorView> {
    match parse_key(inner) {
        None => Err(KeyErrorView::Invalid(inner)),
        Some(k) => match stack_get(vars, k) {
            Some(v) => Ok(v),
            None => key_get(k, env),
        },
    }
}

impl Resolver for Context {
    open spec fn spec_value(&self, inner: Seq<char>) -> Result<Seq<char>, KeyErrorView> {
        variable_value(self.variables@, self.environment@, inner)
    }

    fn value(&self, inner: &Vec<char>) -> (r: Result<String, KeyError>) {
        match crate::context::parse::Key::parse_chars(inner) {
            Ok(k) => self.variables.try_get(&k, &self.environment),
            Err(e) => Err(KeyError::Invalid(e.text)),
        }
    }
}

/// `s` with every `c` replaced by `by`.
pub open spec fn replace_char(s: Seq<char>, c: char, by: Seq<char>) -> Seq<char>
    decreases s.len(),
{
    if s.len() == 0 {
        Seq::empty()
    } else if s.last() == c {
        replace_char(s.drop_last(), c, by) + by
    } else {
        replace_char(s.drop_last(), c, by).push(s.last())
    }
}

/// A successful substitution with every `~` replaced by `home`.
pub open spec fn expand_home(r: Result<Seq<char>, KeyErrorView>, home: Seq<char>) -> Result<Seq<char>, KeyErrorView> {
    match r {
        Ok(s) => Ok(replace_char(s, '~', home)),
        Err(e) => Err(e),
    }
}

impl Context {
    /// A context for `locale` with no managers, no variables, the
    /// environment `environment`, and the home directory that [`home_of`]
    /// makes of `home`, the one the system reports.
    pub fn with_home_dir(locale: Locale, environment: Environment, home: Option<String>) -> (r: Context)
        ensures
            r.locale@ == locale@,
            manager_entries(r.managers) == Seq::<(Seq<char>, PackageManagerView)>::empty(),
            r.variables@ == Seq::<(KeyView, Seq<char>)>::empty(),
            r.environment@ == environment@,
            r.home_dir@ == home_of(opt_view(home)),
    {
        let home_dir = home_from(home);
        Context { locale, managers: new_managers(), variables: KeyStack::new(), home_dir, environment }
    }

    /// [`Context::with_home_dir`] with the home directory that
    /// `dirs::home_dir` reports for this machine.
    pub fn new(locale: Locale, environment: Environment) -> (r: Context)
        ensures
            r.locale@ == locale@,
            manager_entries(r.managers) == Seq::<(Seq<char>, PackageManagerView)>::empty(),
            r.variables@ == Seq::<(KeyView, Seq<char>)>::empty(),
            r.environment@ == environment@,
            exists|h: Option<Seq<char>>| r.home_dir@ == home_of(h),
    {
        let home = dirs_home_dir();
        let ghost h = opt_view(home);
        let r = Context::with_home_dir(locale, environment, home);
        assert(r.home_dir@ == home_of(h));
        r
    }

    /// Replaces every `${{ key }}` reference in `input` with the key's
    /// value: the top of its variable stack, or for `env:` keys the
    /// environment variable.
    pub fn parse_str(&self, input: &str) -> (r: Result<String, KeyError>)
        ensures
            result_view(&r) == substitution(lookup_of(self), input@, 0),
    {
        substitute(self, input)
    }

    /// [`Context::parse_str`], then every `~` replaced by the home directory.
    pub fn parse_path(&self, input: &str) -> (r: Result<String, KeyError>)
        ensures
            result_view(&r) == expand_home(substitution(lookup_of(self), input@, 0), self.home_dir@),
    {
        match self.parse_str(input) {
            Ok(s) => Ok(replace_tilde(s.as_str(), &self.home_dir)),
            Err(e) => Err(e),
        }
    }
}

/// `s` with every `~` replaced by `home`.
pub fn replace_tilde(s: &str, home: &String) -> (r: String)
    ensures
        r@ == replace_char(s@, '~', home@),
{
    let v = chars_of(s);
    let h = chars_of(home.as_str());
    let mut out = String::new();
    let mut i: usize = 0;
    while i < v.len()
        invariant
            i <= v@.len(),
            v@ == s@,
            h@ == home@,
            out@ == replace_char(v@.take(i as int), '~', home@),
        decreases v@.len() - i,
    {
        assert(v@.take(i + 1).drop_last() =~= v@.take(i as int));
        if v[i] == '~' {
            crate::text::push_all(&mut out, &h);
        } else {
            push_char(&mut out, v[i]);
        }
        i = i + 1;
    }
    assert(v@.take(v@.len() as int) =~= v@);
    out
}

/// Everything resolution reads and changes in a [`Context`].
pub struct ContextState {
    pub locale: LocaleView,
    pub managers: Seq<(Seq<char>, PackageManagerView)>,
    pub variables: Seq<(KeyView, Seq<char>)>,
    pub home: Seq<char>,
    pub environment: Seq<(Seq<char>, Seq<char>)>,
}

/// The state held by `c`.
pub open spec fn state_of(c: &Context) -> ContextState {
    ContextState {
        locale: c.locale@,
        managers: manager_entries(c.managers),
        variables: c.variables@,
        home: c.home_dir@,
        environment: c.environment@,
    }
}

/// Values of reference texts under the variables `vars` and environment `env`.
pub open spec fn vars_lookup(
    vars: Seq<(KeyView, Seq<char>)>,
    env: Seq<(Seq<char>, Seq<char>)>,
) -> spec_fn(Seq<char>) -> Result<Seq<char>, KeyErrorView> {
    |inner: Seq<char>| variable_value(vars, env, inner)
}

/// Values of reference texts in the state `st`.
pub open spec fn state_lookup(st: ContextState) -> spec_fn(Seq<char>) -> Result<Seq<char>, KeyErrorView> {
    vars_lookup(st.variables, st.environment)
}

/// The substitution that a context performs is the one of its state.
pub proof fn lemma_context_lookup(c: &Context)
    ensures
        lookup_of(c) == state_lookup(state_of(c)),
{
    assert(lookup_of(c) =~= state_lookup(state_of(c)));
}

/// Replacing a character works piece by piece: the replacement of a
/// concatenation is the concatenation of the replacements, a text without
/// the character is kept, and the character alone becomes the replacement.
/// So every occurrence is replaced, and nothing else changes.
pub proof fn law_replace_char(a: Seq<char>, b: Seq<char>, c: char, by: Seq<char>)
    ensures
        replace_char(a + b, c, by) == replace_char(a, c, by) + replace_char(b, c, by),
        !a.contains(c) ==> replace_char(a, c, by) == a,
        replace_char(seq![c], c, by) == by,
    decreases b.len(),
{
    if b.len() == 0 {
        assert(a + b =~= a);
        assert(replace_char(a, c, by) + Seq::<char>::empty() =~= replace_char(a, c, by));
    } else {
        law_replace_char(a, b.drop_last(), c, by);
        assert((a + b).drop_last() =~= a + b.drop_last());
        assert((a + b).last() == b.last());
    }
    lemma_replace_char_kept(a, c, by);
    assert(seq![c].drop_last() =~= Seq::<char>::empty());
    assert(seq![c].last() == c);
    assert(replace_char(Seq::<char>::empty(), c, by) == Seq::<char>::empty());
    assert(replace_char(seq![c], c, by) == replace_char(seq![c].drop_last(), c, by) + by);
    assert(Seq::<char>::empty() + by =~= by);
}

proof fn lemma_replace_char_kept(a: Seq<char>, c: char, by: Seq<char>)
    ensures
        !a.contains(c) ==> replace_char(a, c, by) == a,
    decreases a.len(),
{
    if a.len() > 0 && !a.contains(c) {
        assert(!a.drop_last().contains(c)) by {
            if a.drop_last().contains(c) {
                let i = choose|i: int| 0 <= i < a.drop_last().len() && a.drop_last()[i] == c;
                assert(a[i] == c);
            }
        }
        lemma_replace_char_kept(a.drop_last(), c, by);
        assert(a.last() != c) by {
            assert(a[a.len() - 1] == a.last());
        }
        assert(a.drop_last().push(a.last()) =~= a);
    }
}

/// The first word of a text is what comes before its first space: a text
/// without spaces is its own first word, and whatever follows a space does
/// not change the first word.
pub proof fn law_first_word(a: Seq<char>, rest: Seq<char>)
    requires
        !a.contains(' '),
    ensures
        first_word(a) == a,
        first_word(a + seq![' '] + rest) == a,
    decreases a.len(),
{
    if a.len() > 0 {
        assert(a[0] != ' ');
        assert(!a.drop_first().contains(' ')) by {
            if a.drop_first().contains(' ') {
                let i = choose|i: int| 0 <= i < a.drop_first().len() && a.drop_first()[i] == ' ';
                assert(a[i + 1] == ' ');
            }
        }
        law_first_word(a.drop_first(), rest);
        let s = a + seq![' '] + rest;
        assert(s[0] == a[0]);
        assert(s.drop_first() =~= a.drop_first() + seq![' '] + rest);
        assert(seq![a[0]] + a.drop_first() =~= a);
    } else {
        let s = a + seq![' '] + rest;
        assert(s[0] == ' ');
    }
}

} // verus!
