//! Substitution of `${{ key }}` references in strings.
//!
//! A key is, after surrounding whitespace is stripped, one of
//! `var`, `env:var`, `object.attr` or `object#id.attr`, where each name is a
//! non-empty run of word characters.
use vstd::prelude::*;
use crate::text::{word_char, space_char, is_word_char, is_space_char, string_of_range, chars_of, push_char, push_str, copy_string};

verus! {

/// Reference to a substitution value.
#[derive(Debug, PartialEq)]
pub enum Key {
    /// `${{ var }}`
    Var(String),
    /// `${{ env:var }}`
    EnvVar(String),
    /// `${{ object.attr }}`
    ObjectAttr { object: String, attr: String },
    /// `${{ object#id.attr }}`
    ObjectInstanceAttr { object: String, id: String, attr: String },
}

/// Mathematical form of a [`Key`].
pub enum KeyView {
    Var(Seq<char>),
    EnvVar(Seq<char>),
    ObjectAttr { object: Seq<char>, attr: Seq<char> },
    ObjectInstanceAttr { object: Seq<char>, id: Seq<char>, attr: Seq<char> },
}

impl View for Key {
    type V = KeyView;

    open spec fn view(&self) -> KeyView {
        match self {
            Key::Var(v) => KeyView::Var(v@),
            Key::EnvVar(v) => KeyView::EnvVar(v@),
            Key::ObjectAttr { object, attr } => KeyView::ObjectAttr { object: object@, attr: attr@ },
            Key::ObjectInstanceAttr { object, id, attr } => KeyView::ObjectInstanceAttr {
                object: object@,
                id: id@,
                attr: attr@,
            },
        }
    }
}

impl Clone for Key {
    fn clone(&self) -> (r: Self)
        ensures
            r@ == self@,
    {
        match self {
            Key::Var(v) => Key::Var(v.clone()),
            Key::EnvVar(v) => Key::EnvVar(v.clone()),
            Key::ObjectAttr { object, attr } => Key::ObjectAttr { object: object.clone(), attr: attr.clone() },
            Key::ObjectInstanceAttr { object, id, attr } => Key::ObjectInstanceAttr {
                object: object.clone(),
                id: id.clone(),
                attr: attr.clone(),
            },
        }
    }
}

/// Key text that does not follow the key grammar.
#[derive(Debug)]
pub struct InvalidKey {
    /// The rejected text.
    pub text: String,
}

/// Every character of `s` is a word character.
pub open spec fn all_word(s: Seq<char>) -> bool {
    forall|i: int| 0 <= i < s.len() ==> word_char(#[trigger] s[i])
}

/// `s` is a non-empty run of word characters (`\w+`).
pub open spec fn word_run(s: Seq<char>) -> bool {
    s.len() > 0 && all_word(s)
}

/// Index of the first character at or after `i` that is not whitespace (or `s.len()`).
pub open spec fn skip_space(s: Seq<char>, i: int) -> int
    decreases s.len() - i,
{
    if i < 0 || i >= s.len() {
        s.len() as int
    } else if space_char(s[i]) {
        skip_space(s, i + 1)
    } else {
        i
    }
}

/// End of `s[lo..j]` once trailing whitespace is dropped.
pub open spec fn skip_space_back(s: Seq<char>, lo: int, j: int) -> int
    decreases j - lo,
{
    if j <= lo {
        lo
    } else if space_char(s[j - 1]) {
        skip_space_back(s, lo, j - 1)
    } else {
        j
    }
}

/// `s` without leading and trailing whitespace (`^\s*` and `\s*$`).
pub open spec fn trim(s: Seq<char>) -> Seq<char> {
    let lo = skip_space(s, 0);
    s.subrange(lo, skip_space_back(s, lo, s.len() as int))
}

/// Index of the first non-word character at or after `i` (or `s.len()`).
pub open spec fn skip_word(s: Seq<char>, i: int) -> int
    decreases s.len() - i,
{
    if i < 0 || i >= s.len() {
        s.len() as int
    } else if word_char(s[i]) {
        skip_word(s, i + 1)
    } else {
        i
    }
}

/// `s` starts with `env:`.
pub open spec fn env_prefix(s: Seq<char>) -> bool {
    s.len() >= 4 && s[0] == 'e' && s[1] == 'n' && s[2] == 'v' && s[3] == ':'
}

/// The key named by the (already trimmed) text `b`, if `b` follows the grammar.
pub open spec fn parse_trimmed(b: Seq<char>) -> Option<KeyView> {
    let p = skip_word(b, 0);
    let q = skip_word(b, p + 1);
    if word_run(b) {
        Some(KeyView::Var(b))
    } else if env_prefix(b) && word_run(b.skip(4)) {
        Some(KeyView::EnvVar(b.skip(4)))
    } else if 0 < p < b.len() && b[p] == '.' && word_run(b.skip(p + 1)) {
        Some(KeyView::ObjectAttr { object: b.take(p), attr: b.skip(p + 1) })
    } else if 0 < p < b.len() && b[p] == '#' && p + 1 < q < b.len() && b[q] == '.'
        && word_run(b.skip(q + 1)) {
        Some(KeyView::ObjectInstanceAttr { object: b.take(p), id: b.subrange(p + 1, q), attr: b.skip(q + 1) })
    } else {
        None
    }
}

proof fn lemma_skip_word_over(s: Seq<char>, i: int, j: int)
    requires
        0 <= i <= j <= s.len(),
        forall|k: int| i <= k < j ==> word_char(#[trigger] s[k]),
        j < s.len() ==> !word_char(s[j]),
    ensures
        skip_word(s, i) == j,
    decreases j - i,
{
    if i < j {
        lemma_skip_word_over(s, i + 1, j);
    }
}

/// The key grammar, `:`, `.` and `#` not being word characters: a word `a`
/// names the variable `a`; `env:a` the environment variable `a`; `a.b` the
/// attribute `b` of the object `a`; and `a#i.b` the attribute `b` of the
/// instance `i` of the object `a`.
pub proof fn law_key_grammar(a: Seq<char>, i: Seq<char>, b: Seq<char>)
    requires
        word_run(a),
        word_run(i),
        word_run(b),
        !word_char(':'),
        !word_char('.'),
        !word_char('#'),
    ensures
        parse_trimmed(a) == Some(KeyView::Var(a)),
        parse_trimmed(seq!['e', 'n', 'v', ':'] + a) == Some(KeyView::EnvVar(a)),
        parse_trimmed(a + seq!['.'] + b) == Some(KeyView::ObjectAttr { object: a, attr: b }),
        parse_trimmed(a + seq!['#'] + i + seq!['.'] + b) == Some(KeyView::ObjectInstanceAttr { object: a, id: i, attr: b }),
{
    let al = a.len() as int;
    let e = seq!['e', 'n', 'v', ':'] + a;
    assert(e[3] == ':');
    assert(!all_word(e));
    assert(e.skip(4) =~= a);
    let o = a + seq!['.'] + b;
    assert(o[a.len() as int] == '.');
    assert(!all_word(o));
    lemma_skip_word_over(o, 0, a.len() as int);
    assert(o.take(a.len() as int) =~= a);
    assert(o.skip(al + 1) =~= b);
    if o.len() >= 4 && o[3] == ':' {
        if a.len() > 3 {
            assert(word_char(o[3]));
        }
    }
    let n = a + seq!['#'] + i + seq!['.'] + b;
    let q = al + 1 + i.len();
    assert(n[a.len() as int] == '#');
    assert(n[q] == '.');
    assert(!all_word(n));
    lemma_skip_word_over(n, 0, a.len() as int);
    assert forall|k: int| al + 1 <= k < q implies word_char(#[trigger] n[k]) by {
        assert(n[k] == i[k - a.len() - 1]);
    }
    lemma_skip_word_over(n, al + 1, q);
    assert(n.take(a.len() as int) =~= a);
    assert(n.subrange(al + 1, q) =~= i);
    assert(n.skip(q + 1) =~= b);
    assert(!word_run(n.skip(al + 1))) by {
        assert(n.skip(al + 1)[i.len() as int] == '.');
    }
    if n.len() >= 4 && n[3] == ':' {
        if a.len() > 3 {
            assert(word_char(n[3]));
        }
    }
}

/// The key named by `s`, if `s` follows the key grammar.
pub open spec fn parse_key(s: Seq<char>) -> Option<KeyView> {
    parse_trimmed(trim(s))
}

/// First index at or after `i` in `v[lo..hi]` that is not a word character (or `hi`).
fn find_non_word(v: &Vec<char>, lo: usize, i: usize, hi: usize) -> (r: usize)
    requires
        lo <= i <= hi <= v@.len(),
    ensures
        r - lo == skip_word(v@.subrange(lo as int, hi as int), i - lo),
        i <= r <= hi,
{
    let ghost s = v@.subrange(lo as int, hi as int);
    let mut j = i;
    while j < hi
        invariant
            lo <= i <= j <= hi <= v@.len(),
            s == v@.subrange(lo as int, hi as int),
            skip_word(s, i - lo) == skip_word(s, j - lo),
        decreases hi - j,
    {
        if !is_word_char(v[j]) {
            return j;
        }
        j = j + 1;
    }
    j
}

/// Whether `v[lo..hi]` is a non-empty run of word characters.
fn is_word_run(v: &Vec<char>, lo: usize, hi: usize) -> (r: bool)
    requires
        lo <= hi <= v@.len(),
    ensures
        r == word_run(v@.subrange(lo as int, hi as int)),
{
    let ghost s = v@.subrange(lo as int, hi as int);
    let mut j = lo;
    while j < hi
        invariant
            lo <= j <= hi <= v@.len(),
            s == v@.subrange(lo as int, hi as int),
            forall|k: int| 0 <= k < j - lo ==> word_char(#[trigger] s[k]),
        decreases hi - j,
    {
        if !is_word_char(v[j]) {
            assert(!word_char(s[j - lo]));
            return false;
        }
        j = j + 1;
    }
    lo < hi
}

/// Bounds of `v` once leading and trailing whitespace are dropped.
pub(crate) fn trim_bounds(v: &Vec<char>) -> (r: (usize, usize))
    ensures
        r.0 <= r.1 <= v@.len(),
        v@.subrange(r.0 as int, r.1 as int) == trim(v@),
{
    let ghost s = v@;
    let mut lo: usize = 0;
    while lo < v.len() && is_space_char(v[lo])
        invariant
            lo <= v@.len(),
            s == v@,
            skip_space(s, 0) == skip_space(s, lo as int),
        decreases v@.len() - lo,
    {
        lo = lo + 1;
    }
    let mut hi: usize = v.len();
    while hi > lo && is_space_char(v[hi - 1])
        invariant
            lo <= hi <= v@.len(),
            s == v@,
            skip_space(s, 0) == lo,
            skip_space_back(s, lo as int, s.len() as int) == skip_space_back(s, lo as int, hi as int),
        decreases hi,
    {
        hi = hi - 1;
    }
    (lo, hi)
}

impl Key {
    /// Parses key text such as `var`, `env:var`, `obj.attr` or `obj#id.attr`,
    /// ignoring surrounding whitespace.
    pub fn try_from(s: &str) -> (r: Result<Key, InvalidKey>)
        ensures
            match r {
                Ok(k) => parse_key(s@) == Some(k@),
                Err(e) => parse_key(s@) is None && e.text@ == s@,
            },
    {
        let v = chars_of(s);
        Self::parse_chars(&v)
    }

    /// [`Key::try_from`] on a sequence of characters.
    pub fn parse_chars(v: &Vec<char>) -> (r: Result<Key, InvalidKey>)
        ensures
            match r {
                Ok(k) => parse_key(v@) == Some(k@),
                Err(e) => parse_key(v@) is None && e.text@ == v@,
            },
    {
        let (lo, hi) = trim_bounds(v);
        let ghost b = trim(v@);
        assert(b == v@.subrange(lo as int, hi as int));
        let p = find_non_word(v, lo, lo, hi);
        if is_word_run(v, lo, hi) {
            return Ok(Key::Var(string_of_range(v, lo, hi)));
        }
        if hi - lo >= 4 && v[lo] == 'e' && v[lo + 1] == 'n' && v[lo + 2] == 'v' && v[lo + 3] == ':' {
            assert(v@.subrange(lo + 4, hi as int) =~= b.skip(4));
            if is_word_run(v, lo + 4, hi) {
                return Ok(Key::EnvVar(string_of_range(v, lo + 4, hi)));
            }
        }
        if lo < p && p < hi && v[p] == '.' {
            assert(v@.subrange(p + 1, hi as int) =~= b.skip(p - lo + 1));
            if is_word_run(v, p + 1, hi) {
                let object = string_of_range(v, lo, p);
                let attr = string_of_range(v, p + 1, hi);
                assert(object@ =~= b.take(p - lo));
                return Ok(Key::ObjectAttr { object, attr });
            }
        }
        if lo < p && p < hi && v[p] == '#' {
            let q = find_non_word(v, lo, p + 1, hi);
            if p + 1 < q && q < hi && v[q] == '.' {
                assert(v@.subrange(q + 1, hi as int) =~= b.skip(q - lo + 1));
                if is_word_run(v, q + 1, hi) {
                    let object = string_of_range(v, lo, p);
                    let id = string_of_range(v, p + 1, q);
                    let attr = string_of_range(v, q + 1, hi);
                    assert(object@ =~= b.take(p - lo));
                    assert(id@ =~= b.subrange(p - lo + 1, q - lo));
                    return Ok(Key::ObjectInstanceAttr { object, id, attr });
                }
            }
        }
        Err(InvalidKey { text: string_of_range(v, 0, v.len()) })
    }
}

impl Key {
    /// Exact comparison of two keys.
    pub fn same(&self, other: &Key) -> (r: bool)
        ensures
            r == (self@ == other@),
    {
        match self {
            Key::Var(a) => match other {
                Key::Var(b) => *a == *b,
                _ => false,
            },
            Key::EnvVar(a) => match other {
                Key::EnvVar(b) => *a == *b,
                _ => false,
            },
            Key::ObjectAttr { object: o1, attr: a1 } => match other {
                Key::ObjectAttr { object: o2, attr: a2 } => *o1 == *o2 && *a1 == *a2,
                _ => false,
            },
            Key::ObjectInstanceAttr { object: o1, id: i1, attr: a1 } => match other {
                Key::ObjectInstanceAttr { object: o2, id: i2, attr: a2 } => {
                    *o1 == *o2 && *i1 == *i2 && *a1 == *a2
                },
                _ => false,
            },
        }
    }

    /// Value of the key from the process environment: defined for
    /// `env:var` keys whose variable is set, an error for every other key.
    pub fn get(&self, env: &Environment) -> (r: Result<String, KeyError>)
        ensures
            result_view(&r) == key_get(self@, env@),
    {
        match self {
            Key::EnvVar(var) => match env.var(var) {
                Some(value) => Ok(value),
                None => Err(KeyError::MissingEnvVar(copy_string(var))),
            },
            _ => Err(KeyError::Undefined(self.clone())),
        }
    }
}

/// Why a substitution failed.
#[derive(Debug)]
pub enum KeyError {
    /// The text between `${{` and `}}` is not a key.
    Invalid(String),
    /// The key has no value.
    Undefined(Key),
    /// The environment variable named by an `env:` key is not set.
    MissingEnvVar(String),
    /// The key is not the one this substitution accepts.
    Unexpected(Key),
}

/// Mathematical form of a [`KeyError`].
pub enum KeyErrorView {
    Invalid(Seq<char>),
    Undefined(KeyView),
    MissingEnvVar(Seq<char>),
    Unexpected(KeyView),
}

impl View for KeyError {
    type V = KeyErrorView;

    open spec fn view(&self) -> KeyErrorView {
        match self {
            KeyError::Invalid(s) => KeyErrorView::Invalid(s@),
            KeyError::Undefined(k) => KeyErrorView::Undefined(k@),
            KeyError::MissingEnvVar(s) => KeyErrorView::MissingEnvVar(s@),
            KeyError::Unexpected(k) => KeyErrorView::Unexpected(k@),
        }
    }
}

/// A substitution result, with the string and the error taken by their views.
pub open spec fn result_view(r: &Result<String, KeyError>) -> Result<Seq<char>, KeyErrorView> {
    match r {
        Ok(s) => Ok(s@),
        Err(e) => Err(e@),
    }
}

/// Snapshot of the process environment: variable names and values.
pub struct Environment {
    vars: Vec<(String, String)>,
}

/// The value of the first entry named `name`.
pub open spec fn env_lookup(vars: Seq<(Seq<char>, Seq<char>)>, name: Seq<char>) -> Option<Seq<char>>
    decreases vars.len(),
{
    if vars.len() == 0 {
        None
    } else if vars[0].0 == name {
        Some(vars[0].1)
    } else {
        env_lookup(vars.drop_first(), name)
    }
}

impl View for Environment {
    type V = Seq<(Seq<char>, Seq<char>)>;

    closed spec fn view(&self) -> Seq<(Seq<char>, Seq<char>)> {
        self.vars@.map_values(|e: (String, String)| (e.0@, e.1@))
    }
}

/// Value of `key` taken from the environment alone.
pub open spec fn key_get(key: KeyView, env: Seq<(Seq<char>, Seq<char>)>) -> Result<Seq<char>, KeyErrorView> {
    match key {
        KeyView::EnvVar(var) => match env_lookup(env, var) {
            Some(v) => Ok(v),
            None => Err(KeyErrorView::MissingEnvVar(var)),
        },
        _ => Err(KeyErrorView::Undefined(key)),
    }
}

impl Environment {
    /// An environment holding the given variables, in order.
    pub fn new(vars: Vec<(String, String)>) -> (r: Environment)
        ensures
            r@ == vars@.map_values(|e: (String, String)| (e.0@, e.1@)),
    {
        Environment { vars }
    }

    /// An environment without variables.
    pub fn empty() -> (r: Environment)
        ensures
            r@ == Seq::<(Seq<char>, Seq<char>)>::empty(),
    {
        let r = Environment { vars: Vec::new() };
        assert(r@ =~= Seq::<(Seq<char>, Seq<char>)>::empty());
        r
    }

    /// Value of the variable `name`.
    pub fn var(&self, name: &String) -> (r: Option<String>)
        ensures
            match r {
                Some(v) => env_lookup(self@, name@) == Some(v@),
                None => env_lookup(self@, name@) is None,
            },
    {
        let mut i: usize = 0;
        assert(self@.skip(0) =~= self@);
        while i < self.vars.len()
            invariant
                i <= self.vars@.len(),
                env_lookup(self@, name@) == env_lookup(self@.skip(i as int), name@),
            decreases self.vars@.len() - i,
        {
            assert(self@.skip(i as int)[0] == self@[i as int]);
            assert(self@.skip(i as int).drop_first() =~= self@.skip(i + 1));
            if self.vars[i].0 == *name {
                return Some(copy_string(&self.vars[i].1));
            }
            i = i + 1;
        }
        None
    }

    /// A copy of the snapshot.
    pub fn duplicate(&self) -> (r: Environment)
        ensures
            r@ == self@,
    {
        let mut vars: Vec<(String, String)> = Vec::new();
        let mut i: usize = 0;
        while i < self.vars.len()
            invariant
                i <= self.vars@.len(),
                vars@.map_values(|e: (String, String)| (e.0@, e.1@)) =~= self@.take(i as int),
            decreases self.vars@.len() - i,
        {
            let ghost before = vars@;
            let entry = (copy_string(&self.vars[i].0), copy_string(&self.vars[i].1));
            vars.push(entry);
            assert(vars@ =~= before.push(entry));
            assert(self@.take(i + 1) =~= self@.take(i as int).push(self@[i as int]));
            i = i + 1;
            assert(vars@.map_values(|e: (String, String)| (e.0@, e.1@)) =~= self@.take(i as int));
        }
        let r = Environment { vars };
        assert(self@.take(self@.len() as int) =~= self@);
        r
    }
}

/// Index of the last entry of `s[..n]` whose key is `k`, or `-1`.
pub open spec fn last_index(s: Seq<(KeyView, Seq<char>)>, k: KeyView, n: int) -> int
    decreases n,
{
    if n <= 0 {
        -1
    } else if s[n - 1].0 == k {
        n - 1
    } else {
        last_index(s, k, n - 1)
    }
}

/// The most recent value pushed for `k` and not yet dropped.
pub open spec fn stack_get(s: Seq<(KeyView, Seq<char>)>, k: KeyView) -> Option<Seq<char>> {
    let p = last_index(s, k, s.len() as int);
    if p >= 0 {
        Some(s[p].1)
    } else {
        None
    }
}

/// The entries once the most recent value for `k` is dropped.
pub open spec fn stack_drop(s: Seq<(KeyView, Seq<char>)>, k: KeyView) -> Seq<(KeyView, Seq<char>)> {
    let p = last_index(s, k, s.len() as int);
    if p >= 0 {
        s.remove(p)
    } else {
        s
    }
}

/// The values pushed for `k` and not yet dropped, oldest first.
pub open spec fn stack_of(s: Seq<(KeyView, Seq<char>)>, k: KeyView) -> Seq<Seq<char>>
    decreases s.len(),
{
    if s.len() == 0 {
        Seq::empty()
    } else if s.last().0 == k {
        stack_of(s.drop_last(), k).push(s.last().1)
    } else {
        stack_of(s.drop_last(), k)
    }
}

/// Per-key stacks of substitution values.
///
/// Each key has its own stack: [`KeyStack::push`] adds a value on top,
/// [`KeyStack::drop`] removes the top value and [`KeyStack::get`] reads it.
/// The view lists every live `(key, value)` push, oldest first.
pub struct KeyStack {
    entries: Vec<(Key, String)>,
}

impl View for KeyStack {
    type V = Seq<(KeyView, Seq<char>)>;

    closed spec fn view(&self) -> Seq<(KeyView, Seq<char>)> {
        self.entries@.map_values(|e: (Key, String)| (e.0@, e.1@))
    }
}

impl KeyStack {
    /// An empty stack.
    pub fn new() -> (r: KeyStack)
        ensures
            r@ == Seq::<(KeyView, Seq<char>)>::empty(),
    {
        let r = KeyStack { entries: Vec::new() };
        assert(r@ =~= Seq::<(KeyView, Seq<char>)>::empty());
        r
    }

    fn find_last(&self, key: &Key) -> (r: Option<usize>)
        ensures
            match r {
                Some(i) => i < self@.len() && last_index(self@, key@, self@.len() as int) == i,
                None => last_index(self@, key@, self@.len() as int) == -1,
            },
    {
        let mut n = self.entries.len();
        while n > 0
            invariant
                n <= self@.len(),
                self@.len() == self.entries@.len(),
                last_index(self@, key@, self@.len() as int) == last_index(self@, key@, n as int),
            decreases n,
        {
            if self.entries[n - 1].0.same(key) {
                return Some(n - 1);
            }
            n = n - 1;
        }
        None
    }

    /// The top value for `key`, if any.
    pub fn get(&self, key: &Key) -> (r: Option<String>)
        ensures
            match r {
                Some(v) => stack_get(self@, key@) == Some(v@),
                None => stack_get(self@, key@) is None,
            },
    {
        match self.find_last(key) {
            Some(i) => Some(copy_string(&self.entries[i].1)),
            None => None,
        }
    }

    /// The top value for `key`, falling back to [`Key::get`] when the stack is empty.
    pub fn try_get(&self, key: &Key, env: &Environment) -> (r: Result<String, KeyError>)
        ensures
            result_view(&r) == match stack_get(self@, key@) {
                Some(v) => Ok(v),
                None => key_get(key@, env@),
            },
    {
        match self.get(key) {
            Some(v) => Ok(v),
            None => key.get(env),
        }
    }

    /// Pushes `val` on top of the stack of `key`.
    pub fn push(&mut self, key: Key, val: String)
        ensures
            final(self)@ == old(self)@.push((key@, val@)),
    {
        let ghost k = key@;
        let ghost v = val@;
        self.entries.push((key, val));
        assert(self@ =~= old(self)@.push((k, v)));
    }

    /// Parses `key` (as [`Key::try_from`]) and pushes `val` for it.
    pub fn try_push(&mut self, key: &str, val: String) -> (r: Result<(), KeyError>)
        ensures
            match parse_key(key@) {
                Some(k) => r is Ok && final(self)@ == old(self)@.push((k, val@)),
                None => r matches Err(e) && e@ == KeyErrorView::Invalid(key@)
                    && final(self)@ == old(self)@,
            },
    {
        match Key::try_from(key) {
            Ok(k) => {
                self.push(k, val);
                Ok(())
            },
            Err(e) => Err(KeyError::Invalid(e.text)),
        }
    }

    /// Removes the top value for `key`; nothing happens when its stack is empty.
    pub fn drop(&mut self, key: &Key)
        ensures
            final(self)@ == stack_drop(old(self)@, key@),
    {
        match self.find_last(key) {
            Some(i) => {
                let ghost before = self.entries@;
                self.entries.remove(i);
                assert(self@ =~= old(self)@.remove(i as int));
            },
            None => {},
        }
    }
}

proof fn lemma_last_index_prefix(s: Seq<(KeyView, Seq<char>)>, t: Seq<(KeyView, Seq<char>)>, k: KeyView, n: int)
    requires
        0 <= n <= s.len(),
        n <= t.len(),
        s.take(n) == t.take(n),
    ensures
        last_index(s, k, n) == last_index(t, k, n),
    decreases n,
{
    if n > 0 {
        assert(s[n - 1] == s.take(n)[n - 1]);
        assert(t[n - 1] == t.take(n)[n - 1]);
        assert(s.take(n - 1) =~= s.take(n).take(n - 1));
        assert(t.take(n - 1) =~= t.take(n).take(n - 1));
        lemma_last_index_prefix(s, t, k, n - 1);
    }
}

/// Pushing a value for `k` makes it the value read for `k`.
pub proof fn law_get_after_push(s: Seq<(KeyView, Seq<char>)>, k: KeyView, v: Seq<char>)
    ensures
        stack_get(s.push((k, v)), k) == Some(v),
{
}

/// Pushing a value for `k` leaves the value read for every other key unchanged.
pub proof fn law_push_keeps_other_keys(s: Seq<(KeyView, Seq<char>)>, k: KeyView, v: Seq<char>, other: KeyView)
    requires
        other != k,
    ensures
        stack_get(s.push((k, v)), other) == stack_get(s, other),
{
    let t = s.push((k, v));
    assert(t.take(s.len() as int) =~= s.take(s.len() as int));
    lemma_last_index_prefix(t, s, other, s.len() as int);
    assert(last_index(t, other, t.len() as int) == last_index(t, other, s.len() as int));
    let p = last_index(s, other, s.len() as int);
    if p >= 0 {
        lemma_last_index_range(s, other, s.len() as int);
        assert(t[p] == s[p]);
    }
}

proof fn lemma_last_index_range(s: Seq<(KeyView, Seq<char>)>, k: KeyView, n: int)
    requires
        0 <= n <= s.len(),
    ensures
        -1 <= last_index(s, k, n) < n,
        last_index(s, k, n) >= 0 ==> s[last_index(s, k, n)].0 == k,
    decreases n,
{
    if n > 0 {
        lemma_last_index_range(s, k, n - 1);
    }
}

/// Dropping `k` right after pushing a value for it restores the stack.
pub proof fn law_drop_undoes_push(s: Seq<(KeyView, Seq<char>)>, k: KeyView, v: Seq<char>)
    ensures
        stack_drop(s.push((k, v)), k) == s,
{
    assert(s.push((k, v)).remove(s.len() as int) =~= s);
}

/// The value read for `k` is the top of the stack of values pushed for `k`.
pub proof fn law_get_is_top_of_stack(s: Seq<(KeyView, Seq<char>)>, k: KeyView)
    ensures
        stack_get(s, k) == (if stack_of(s, k).len() > 0 {
            Some(stack_of(s, k).last())
        } else {
            None::<Seq<char>>
        }),
    decreases s.len(),
{
    if s.len() > 0 {
        let t = s.drop_last();
        law_get_is_top_of_stack(t, k);
        if s.last().0 != k {
            assert(s.take(t.len() as int) =~= t.take(t.len() as int));
            lemma_last_index_prefix(s, t, k, t.len() as int);
            lemma_last_index_range(t, k, t.len() as int);
            let p = last_index(t, k, t.len() as int);
            if p >= 0 {
                assert(s[p] == t[p]);
            }
        }
    }
}

/// Pushing a value for `k` puts it on top of the stack of `k` and leaves
/// the stacks of the other keys as they were.
pub proof fn lemma_stack_of_push(s: Seq<(KeyView, Seq<char>)>, k: KeyView, v: Seq<char>, other: KeyView)
    ensures
        stack_of(s.push((k, v)), other) == (if k == other {
            stack_of(s, other).push(v)
        } else {
            stack_of(s, other)
        }),
{
    assert(s.push((k, v)).drop_last() =~= s);
}

/// Dropping `k` takes the top off the stack of `k` and leaves the stacks
/// of the other keys as they were.
pub proof fn lemma_stack_of_drop(s: Seq<(KeyView, Seq<char>)>, k: KeyView, other: KeyView)
    ensures
        k != other ==> stack_of(stack_drop(s, k), other) == stack_of(s, other),
        k == other && stack_of(s, k).len() > 0 ==> stack_of(stack_drop(s, k), k) == stack_of(s, k).drop_last(),
    decreases s.len(),
{
    let n = s.len() as int;
    if n > 0 {
        let t = s.drop_last();
        if s.last().0 == k {
            assert(s.remove(n - 1) =~= t);
        } else {
            lemma_stack_of_drop(t, k, other);
            assert(s.take(n - 1) =~= t.take(n - 1));
            lemma_last_index_prefix(s, t, k, n - 1);
            lemma_last_index_range(t, k, n - 1);
            let p = last_index(t, k, n - 1);
            if p >= 0 {
                assert(s.remove(p).drop_last() =~= t.remove(p));
                assert(s.remove(p).last() == s.last());
            }
        }
    }
}

/// A source of values for the keys of a substitution.
pub trait Resolver {
    /// Value for the text `inner` found between `${{` and `}}`.
    spec fn spec_value(&self, inner: Seq<char>) -> Result<Seq<char>, KeyErrorView>;

    /// Computes [`Resolver::spec_value`].
    fn value(&self, inner: &Vec<char>) -> (r: Result<String, KeyError>)
        ensures
            result_view(&r) == self.spec_value(inner@);
}

/// Index of the first `{` or `}` at or after `j` (or `s.len()`).
pub open spec fn next_brace(s: Seq<char>, j: int) -> int
    decreases s.len() - j,
{
    if j < 0 || j >= s.len() {
        s.len() as int
    } else if s[j] == '{' || s[j] == '}' {
        j
    } else {
        next_brace(s, j + 1)
    }
}

/// `s[i..]` starts with `${{`.
pub open spec fn opens_at(s: Seq<char>, i: int) -> bool {
    0 <= i && i + 3 <= s.len() && s[i] == '$' && s[i + 1] == '{' && s[i + 2] == '{'
}

/// End (just past `}}`) of the reference `${{ inner }}` that starts at `i`,
/// where `inner` holds no brace; `None` when no reference starts at `i`.
pub open spec fn reference_end(s: Seq<char>, i: int) -> Option<int> {
    let k = next_brace(s, i + 3);
    if opens_at(s, i) && k + 1 < s.len() && s[k] == '}' && s[k + 1] == '}' {
        Some(k + 2)
    } else {
        None
    }
}

pub proof fn lemma_next_brace_bounds(s: Seq<char>, j: int)
    requires
        0 <= j <= s.len(),
    ensures
        j <= next_brace(s, j) <= s.len(),
        next_brace(s, j) < s.len() ==> (s[next_brace(s, j)] == '{' || s[next_brace(s, j)] == '}'),
    decreases s.len() - j,
{
    if j < s.len() && !(s[j] == '{' || s[j] == '}') {
        lemma_next_brace_bounds(s, j + 1);
    }
}

/// Prefixes `p` to a successful substitution result.
pub open spec fn prepend(p: Seq<char>, r: Result<Seq<char>, KeyErrorView>) -> Result<Seq<char>, KeyErrorView> {
    match r {
        Ok(t) => Ok(p + t),
        Err(e) => Err(e),
    }
}

/// Substitution of `s[i..]`: scanning left to right, each reference
/// `${{ inner }}` is replaced by the resolver's value for `inner`; the first
/// reference without a value makes the whole substitution fail.
pub open spec fn substitution(
    lookup: spec_fn(Seq<char>) -> Result<Seq<char>, KeyErrorView>,
    s: Seq<char>,
    i: int,
) -> Result<Seq<char>, KeyErrorView>
    decreases s.len() - i,
{
    if i < 0 || i >= s.len() {
        Ok(Seq::empty())
    } else {
        match reference_end(s, i) {
            Some(e) => {
                proof {
                    lemma_next_brace_bounds(s, i + 3);
                }
                match lookup(s.subrange(i + 3, e - 2)) {
                    Ok(v) => prepend(v, substitution(lookup, s, e)),
                    Err(x) => Err(x),
                }
            },
            None => prepend(seq![s[i]], substitution(lookup, s, i + 1)),
        }
    }
}

/// The characters `v[lo..hi]` as a vector.
pub(crate) fn sub_vec(v: &Vec<char>, lo: usize, hi: usize) -> (r: Vec<char>)
    requires
        lo <= hi <= v@.len(),
    ensures
        r@ == v@.subrange(lo as int, hi as int),
{
    let mut r: Vec<char> = Vec::new();
    let mut i = lo;
    while i < hi
        invariant
            lo <= i <= hi <= v@.len(),
            r@ == v@.subrange(lo as int, i as int),
        decreases hi - i,
    {
        r.push(v[i]);
        i = i + 1;
        assert(r@ =~= v@.subrange(lo as int, i as int));
    }
    r
}

/// Computes [`reference_end`].
pub(crate) fn find_reference_end(v: &Vec<char>, i: usize) -> (r: Option<usize>)
    requires
        i < v@.len(),
    ensures
        match r {
            Some(e) => reference_end(v@, i as int) == Some(e as int),
            None => reference_end(v@, i as int) is None,
        },
{
    if !(v.len() - i >= 3 && v[i] == '$' && v[i + 1] == '{' && v[i + 2] == '{') {
        return None;
    }
    let mut k = i + 3;
    while k < v.len() && v[k] != '{' && v[k] != '}'
        invariant
            i + 3 <= k <= v@.len(),
            next_brace(v@, i + 3) == next_brace(v@, k as int),
        decreases v@.len() - k,
    {
        k = k + 1;
    }
    if k < v.len() && v.len() - k > 1 && v[k] == '}' && v[k + 1] == '}' {
        Some(k + 2)
    } else {
        None
    }
}

/// The values of a resolver as a function of the reference text.
pub open spec fn lookup_of<R: Resolver>(r: &R) -> spec_fn(Seq<char>) -> Result<Seq<char>, KeyErrorView> {
    |inner: Seq<char>| r.spec_value(inner)
}

/// Replaces every `${{ key }}` reference in `input` with its value from `r`.
pub fn substitute<R: Resolver>(r: &R, input: &str) -> (res: Result<String, KeyError>)
    ensures
        result_view(&res) == substitution(lookup_of(r), input@, 0),
{
    let ghost f = lookup_of(r);
    let v = chars_of(input);
    let mut out = String::new();
    let mut i: usize = 0;
    while i < v.len()
        invariant
            i <= v@.len(),
            v@ == input@,
            f == lookup_of(r),
            substitution(f, v@, 0) == prepend(out@, substitution(f, v@, i as int)),
        decreases v@.len() - i,
    {
        match find_reference_end(&v, i) {
            Some(e) => {
                proof {
                    lemma_next_brace_bounds(v@, i + 3);
                }
                let inner = sub_vec(&v, i + 3, e - 2);
                let value = r.value(&inner);
                assert(f(inner@) == r.spec_value(inner@));
                assert(substitution(f, v@, i as int) == match f(inner@) {
                    Ok(w) => prepend(w, substitution(f, v@, e as int)),
                    Err(x) => Err(x),
                });
                match value {
                    Ok(val) => {
                        let ghost before = out@;
                        push_str(&mut out, val.as_str());
                        proof {
                            match substitution(f, v@, e as int) {
                                Ok(t) => assert(before + (val@ + t) =~= out@ + t),
                                Err(_) => {},
                            }
                        }
                        i = e;
                    },
                    Err(x) => {
                        return Err(x);
                    },
                }
            },
            None => {
                assert(substitution(f, v@, i as int) == prepend(seq![v@[i as int]], substitution(f, v@, i + 1)));
                let ghost before = out@;
                push_char(&mut out, v[i]);
                proof {
                    match substitution(f, v@, i + 1) {
                        Ok(t) => assert(before + (seq![v@[i as int]] + t) =~= out@ + t),
                        Err(_) => {},
                    }
                }
                i = i + 1;
            },
        }
    }
    assert(out@ + Seq::<char>::empty() =~= out@);
    Ok(out)
}

proof fn lemma_no_reference_suffix(lookup: spec_fn(Seq<char>) -> Result<Seq<char>, KeyErrorView>, s: Seq<char>, i: int)
    requires
        0 <= i <= s.len(),
        forall|j: int| 0 <= j < s.len() ==> #[trigger] reference_end(s, j) is None,
    ensures
        substitution(lookup, s, i) == Ok::<Seq<char>, KeyErrorView>(s.skip(i)),
    decreases s.len() - i,
{
    if i < s.len() {
        lemma_no_reference_suffix(lookup, s, i + 1);
        assert(reference_end(s, i) is None);
        assert(seq![s[i]] + s.skip(i + 1) =~= s.skip(i));
    } else {
        assert(s.skip(i) =~= Seq::<char>::empty());
    }
}

/// Text without any `${{ ... }}` reference is left unchanged by substitution,
/// whatever the values of the keys.
pub proof fn law_text_without_references_is_kept(lookup: spec_fn(Seq<char>) -> Result<Seq<char>, KeyErrorView>, s: Seq<char>)
    requires
        forall|j: int| 0 <= j < s.len() ==> #[trigger] reference_end(s, j) is None,
    ensures
        substitution(lookup, s, 0) == Ok::<Seq<char>, KeyErrorView>(s),
{
    lemma_no_reference_suffix(lookup, s, 0);
    assert(s.skip(0) =~= s);
}

proof fn lemma_next_brace_skips(s: Seq<char>, j: int, k: int)
    requires
        0 <= j <= k < s.len(),
        s[k] == '{' || s[k] == '}',
        forall|i: int| j <= i < k ==> s[i] != '{' && s[i] != '}',
    ensures
        next_brace(s, j) == k,
    decreases k - j,
{
    if j < k {
        lemma_next_brace_skips(s, j + 1, k);
    }
}

proof fn lemma_next_brace_shift(a: Seq<char>, t: Seq<char>, j: int)
    requires
        0 <= j,
    ensures
        next_brace(a + t, a.len() + j) == a.len() + next_brace(t, j),
    decreases t.len() - j,
{
    let s = a + t;
    if j < t.len() {
        assert(s[a.len() + j] == t[j]);
        if !(t[j] == '{' || t[j] == '}') {
            lemma_next_brace_shift(a, t, j + 1);
        }
    }
}

proof fn lemma_reference_end_shift(a: Seq<char>, t: Seq<char>, j: int)
    requires
        0 <= j,
    ensures
        reference_end(a + t, a.len() + j) == match reference_end(t, j) {
            Some(e) => Some(a.len() + e),
            None => None::<int>,
        },
{
    let s = a + t;
    let i = a.len() + j;
    lemma_next_brace_shift(a, t, j + 3);
    let k = next_brace(t, j + 3);
    if j + 3 <= t.len() {
        assert(s[i] == t[j] && s[i + 1] == t[j + 1] && s[i + 2] == t[j + 2]);
    }
    if j + 3 <= t.len() {
        lemma_next_brace_bounds(t, j + 3);
    }
    if k + 1 < t.len() {
        assert(s[a.len() + k] == t[k] && s[a.len() + k + 1] == t[k + 1]);
    }
}

proof fn lemma_substitution_shift(lookup: spec_fn(Seq<char>) -> Result<Seq<char>, KeyErrorView>, a: Seq<char>, t: Seq<char>, j: int)
    requires
        0 <= j,
    ensures
        substitution(lookup, a + t, a.len() + j) == substitution(lookup, t, j),
    decreases t.len() - j,
{
    let s = a + t;
    if j < t.len() {
        lemma_reference_end_shift(a, t, j);
        match reference_end(t, j) {
            Some(e) => {
                lemma_next_brace_bounds(t, j + 3);
                assert(s.subrange(a.len() + j + 3, a.len() + e - 2) =~= t.subrange(j + 3, e - 2));
                lemma_substitution_shift(lookup, a, t, e);
            },
            None => {
                assert(s[a.len() + j] == t[j]);
                lemma_substitution_shift(lookup, a, t, j + 1);
            },
        }
    }
}

/// The texts `inner` of the references `${{ inner }}` of `s[i..]`, found
/// left to right as [`substitution`] finds them.
pub open spec fn reference_inners(s: Seq<char>, i: int) -> Seq<Seq<char>>
    decreases s.len() - i,
{
    if i < 0 || i >= s.len() {
        Seq::empty()
    } else {
        match reference_end(s, i) {
            Some(e) => {
                proof {
                    lemma_next_brace_bounds(s, i + 3);
                }
                seq![s.subrange(i + 3, e - 2)] + reference_inners(s, e)
            },
            None => reference_inners(s, i + 1),
        }
    }
}

/// Substitution succeeds exactly when every reference of the input has a
/// value; when it fails, it fails with the error of the first reference
/// without one, every reference before it having a value.
pub proof fn law_substitution_ok_iff_every_reference_resolves(
    lookup: spec_fn(Seq<char>) -> Result<Seq<char>, KeyErrorView>,
    s: Seq<char>,
    i: int,
)
    ensures
        ({
            let inners = reference_inners(s, i);
            &&& substitution(lookup, s, i) is Ok <==> forall|j: int| 0 <= j < inners.len() ==> #[trigger] lookup(inners[j]) is Ok
            &&& substitution(lookup, s, i) matches Err(x) ==> exists|j: int| 0 <= j < inners.len()
                && #[trigger] lookup(inners[j]) == Err::<Seq<char>, KeyErrorView>(x)
                && forall|k: int| 0 <= k < j ==> #[trigger] lookup(inners[k]) is Ok
        }),
    decreases s.len() - i,
{
    if 0 <= i < s.len() {
        match reference_end(s, i) {
            Some(e) => {
                lemma_next_brace_bounds(s, i + 3);
                law_substitution_ok_iff_every_reference_resolves(lookup, s, e);
                let inner = s.subrange(i + 3, e - 2);
                let rest = reference_inners(s, e);
                let inners = reference_inners(s, i);
                assert(inners == seq![inner] + rest);
                assert(inners[0] == inner);
                assert forall|j: int| 0 <= j < rest.len() implies inners[j + 1] == rest[j] by {}
                match lookup(inner) {
                    Ok(v) => {
                        if forall|j: int| 0 <= j < inners.len() ==> #[trigger] lookup(inners[j]) is Ok {
                            assert forall|j: int| 0 <= j < rest.len() implies #[trigger] lookup(rest[j]) is Ok by {
                                assert(lookup(inners[j + 1]) is Ok);
                            }
                        }
                        if forall|j: int| 0 <= j < rest.len() ==> #[trigger] lookup(rest[j]) is Ok {
                            assert forall|j: int| 0 <= j < inners.len() implies #[trigger] lookup(inners[j]) is Ok by {
                                if j > 0 {
                                    assert(inners[j] == rest[j - 1]);
                                    assert(lookup(rest[j - 1]) is Ok);
                                }
                            }
                        }
                        if let Err(x) = substitution(lookup, s, i) {
                            let j = choose|j: int| 0 <= j < rest.len() && #[trigger] lookup(rest[j]) == Err::<Seq<char>, KeyErrorView>(x)
                                && forall|k: int| 0 <= k < j ==> #[trigger] lookup(rest[k]) is Ok;
                            assert(inners[j + 1] == rest[j]);
                            assert forall|k: int| 0 <= k < j + 1 implies #[trigger] lookup(inners[k]) is Ok by {
                                if k > 0 {
                                    assert(inners[k] == rest[k - 1]);
                                    assert(lookup(rest[k - 1]) is Ok);
                                }
                            }
                            assert(lookup(inners[j + 1]) == Err::<Seq<char>, KeyErrorView>(x));
                        }
                    },
                    Err(x) => {
                        assert(lookup(inners[0]) == Err::<Seq<char>, KeyErrorView>(x));
                    },
                }
            },
            None => {
                law_substitution_ok_iff_every_reference_resolves(lookup, s, i + 1);
            },
        }
    }
}

/// Substitution reads its input from the left: a leading reference
/// `${{ inner }}` (with no brace in `inner`) gives the value of `inner`,
/// followed by the substitution of the rest; the first reference without a
/// value fails the whole substitution, and what follows it is not looked at.
pub proof fn law_substitution_reference_first(
    lookup: spec_fn(Seq<char>) -> Result<Seq<char>, KeyErrorView>,
    inner: Seq<char>,
    rest: Seq<char>,
)
    requires
        forall|i: int| 0 <= i < inner.len() ==> inner[i] != '{' && inner[i] != '}',
    ensures
        substitution(lookup, seq!['$', '{', '{'] + inner + seq!['}', '}'] + rest, 0) == match lookup(inner) {
            Ok(v) => prepend(v, substitution(lookup, rest, 0)),
            Err(e) => Err(e),
        },
{
    let r = seq!['$', '{', '{'] + inner + seq!['}', '}'];
    let s = r + rest;
    let k = (inner.len() + 3) as int;
    assert(s[0] == '$' && s[1] == '{' && s[2] == '{');
    assert(s[k] == '}');
    assert(s[k + 1] == '}');
    assert forall|i: int| 3 <= i < k implies s[i] != '{' && s[i] != '}' by {
        assert(s[i] == inner[i - 3]);
    }
    lemma_next_brace_skips(s, 3, k);
    assert(reference_end(s, 0) == Some(k + 2));
    assert(s.subrange(3, k) =~= inner);
    lemma_substitution_shift(lookup, r, rest, 0);
}

/// Substitution keeps text that starts no reference: a leading character
/// where no reference starts is kept, followed by the substitution of the
/// rest.
pub proof fn law_substitution_text_first(
    lookup: spec_fn(Seq<char>) -> Result<Seq<char>, KeyErrorView>,
    c: char,
    rest: Seq<char>,
)
    requires
        reference_end(seq![c] + rest, 0) is None,
    ensures
        substitution(lookup, seq![c] + rest, 0) == prepend(seq![c], substitution(lookup, rest, 0)),
{
    let s = seq![c] + rest;
    assert(s[0] == c);
    lemma_substitution_shift(lookup, seq![c], rest, 0);
}

/// A string that is a single reference `${{ inner }}` (with no brace in
/// `inner`) is replaced by the value of `inner`.
pub proof fn law_single_reference(lookup: spec_fn(Seq<char>) -> Result<Seq<char>, KeyErrorView>, inner: Seq<char>)
    requires
        forall|i: int| 0 <= i < inner.len() ==> inner[i] != '{' && inner[i] != '}',
    ensures
        substitution(lookup, seq!['$', '{', '{'] + inner + seq!['}', '}'], 0) == lookup(inner),
{
    let s = seq!['$', '{', '{'] + inner + seq!['}', '}'];
    let k = (inner.len() + 3) as int;
    assert(s[k] == '}');
    assert(s[k + 1] == '}');
    assert forall|i: int| 3 <= i < k implies s[i] != '{' && s[i] != '}' by {
        assert(s[i] == inner[i - 3]);
    }
    lemma_next_brace_skips(s, 3, k);
    assert(reference_end(s, 0) == Some(k + 2));
    assert(s.subrange(3, k) =~= inner);
    assert(substitution(lookup, s, k + 2) == Ok::<Seq<char>, KeyErrorView>(Seq::empty()));
    match lookup(inner) {
        Ok(v) => { assert(v + Seq::<char>::empty() =~= v); },
        Err(_) => {},
    }
}

} // verus!
