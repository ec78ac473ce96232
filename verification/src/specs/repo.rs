//! Git repositories.
use vstd::prelude::*;
use crate::text::{copy_string, owned, chars_of, string_of_range, push_str};
use crate::context::{Context, ContextState, expand_home, replace_char, copy_opt, opt_view, state_of, state_lookup, lemma_context_lookup};
use crate::context::parse::{Key, KeyView, KeyError, KeyErrorView, result_view, substitution, lookup_of, reference_end, law_text_without_references_is_kept};
use crate::specs::ObjectKey;

verus! {

/// Git repository checked out at `path`, cloned from `url`.
pub struct Repo {
    pub path: String,
    pub url: String,
    pub branch: Option<String>,
    pub remote: Option<String>,
    pub ssh_key_path: Option<String>,
}

/// Mathematical form of a [`Repo`].
pub struct RepoView {
    pub path: Seq<char>,
    pub url: Seq<char>,
    pub branch: Option<Seq<char>>,
    pub remote: Option<Seq<char>>,
    pub ssh_key_path: Option<Seq<char>>,
}

impl View for Repo {
    type V = RepoView;

    open spec fn view(&self) -> RepoView {
        RepoView {
            path: self.path@,
            url: self.url@,
            branch: opt_view(self.branch),
            remote: opt_view(self.remote),
            ssh_key_path: opt_view(self.ssh_key_path),
        }
    }
}

/// `c` separates path components (`/` or `\`).
pub open spec fn is_separator(c: char) -> bool {
    c == '/' || c == '\\'
}

/// The part of `s` after its last separator (all of `s` when it has none).
pub open spec fn last_component(s: Seq<char>) -> Seq<char>
    decreases s.len(),
{
    if s.len() == 0 || is_separator(s.last()) {
        Seq::empty()
    } else {
        last_component(s.drop_last()).push(s.last())
    }
}

/// Why a repository could not be resolved.
#[derive(Debug)]
pub enum RepoError {
    /// A path or url could not be substituted.
    Key(KeyError),
    /// The last component of the path is empty.
    EmptyName,
    /// The fetched branch cannot be merged by fast-forward.
    NoFastForward,
}

/// Spec form of a [`RepoError`].
pub enum RepoErrorView {
    Key(KeyErrorView),
    EmptyName,
    NoFastForward,
}

impl View for RepoError {
    type V = RepoErrorView;

    open spec fn view(&self) -> RepoErrorView {
        match self {
            RepoError::Key(e) => RepoErrorView::Key(e@),
            RepoError::EmptyName => RepoErrorView::EmptyName,
            RepoError::NoFastForward => RepoErrorView::NoFastForward,
        }
    }
}

/// Name of a repository at `path`: the last path component, which must not be empty.
pub open spec fn repo_name(path: Seq<char>) -> Option<Seq<char>> {
    if last_component(path).len() > 0 {
        Some(last_component(path))
    } else {
        None
    }
}

impl Repo {
    /// The repository's name: the last component of its path.
    pub fn name(&self) -> (r: Result<String, RepoError>)
        ensures
            match repo_name(self@.path) {
                Some(n) => r matches Ok(s) && s@ == n,
                None => r matches Err(RepoError::EmptyName),
            },
    {
        let v = chars_of(self.path.as_str());
        let mut start = v.len();
        assert(v@.take(v@.len() as int) =~= v@);
        assert(v@.subrange(v@.len() as int, v@.len() as int) =~= Seq::<char>::empty());
        assert(last_component(v@) + Seq::<char>::empty() =~= last_component(v@));
        while start > 0 && v[start - 1] != '/' && v[start - 1] != '\\'
            invariant
                start <= v@.len(),
                v@ == self@.path,
                last_component(v@) == last_component(v@.take(start as int)) + v@.subrange(start as int, v@.len() as int),
            decreases start,
        {
            assert(v@.take(start as int).drop_last() =~= v@.take(start - 1));
            assert(v@.take(start as int).last() == v@[start - 1]);
            assert(v@.subrange(start - 1, v@.len() as int) =~= seq![v@[start - 1]] + v@.subrange(start as int, v@.len() as int));
            assert(last_component(v@.take(start - 1)).push(v@[start - 1]) + v@.subrange(start as int, v@.len() as int)
                =~= last_component(v@.take(start - 1)) + v@.subrange(start - 1, v@.len() as int));
            start = start - 1;
        }
        assert(last_component(v@.take(start as int)) =~= Seq::<char>::empty());
        assert(last_component(v@) =~= v@.subrange(start as int, v@.len() as int));
        if start == v.len() {
            Err(RepoError::EmptyName)
        } else {
            Ok(string_of_range(&v, start, v.len()))
        }
    }

    /// A copy of the repository.
    pub fn duplicate(&self) -> (r: Repo)
        ensures
            r@ == self@,
    {
        Repo {
            path: copy_string(&self.path),
            url: copy_string(&self.url),
            branch: copy_opt(&self.branch),
            remote: copy_opt(&self.remote),
            ssh_key_path: copy_opt(&self.ssh_key_path),
        }
    }
}

impl ObjectKey for Repo {
    open spec fn spec_object_name() -> Seq<char> {
        seq!['r', 'e', 'p', 'o']
    }

    fn object_name() -> (r: String) {
        proof {
            reveal_strlit("repo");
            assert("repo"@ =~= seq!['r', 'e', 'p', 'o']);
        }
        owned("repo")
    }
}

/// `repo.attr` and `repo#id.attr`.
pub open spec fn repo_keys(attr: Seq<char>, id: Seq<char>) -> (KeyView, KeyView) {
    (
        KeyView::ObjectAttr { object: seq!['r', 'e', 'p', 'o'], attr },
        KeyView::ObjectInstanceAttr { object: seq!['r', 'e', 'p', 'o'], id, attr },
    )
}

/// The attribute name `path`.
pub open spec fn path_attr() -> Seq<char> {
    seq!['p', 'a', 't', 'h']
}

/// The attribute name `url`.
pub open spec fn url_attr() -> Seq<char> {
    seq!['u', 'r', 'l']
}

/// An optional path, substituted and `~`-expanded.
pub open spec fn resolve_opt_path(p: Option<Seq<char>>, st: ContextState) -> Result<Option<Seq<char>>, KeyErrorView> {
    match p {
        None => Ok(None),
        Some(k) => match expand_home(substitution(state_lookup(st), k, 0), st.home) {
            Ok(v) => Ok(Some(v)),
            Err(e) => Err(e),
        },
    }
}

/// Resolution of repository `r` in state `st`: the path (with `~`
/// expanded), url and ssh key path are substituted, in that order; the
/// repository must have a name; then `repo.path`, `repo#<name>.path`,
/// `repo.url` and `repo#<name>.url` are pushed.
pub open spec fn repo_resolution(r: RepoView, st: ContextState) -> Result<(RepoView, Seq<(KeyView, Seq<char>)>), RepoErrorView> {
    match expand_home(substitution(state_lookup(st), r.path, 0), st.home) {
        Err(e) => Err(RepoErrorView::Key(e)),
        Ok(path) => match substitution(state_lookup(st), r.url, 0) {
            Err(e) => Err(RepoErrorView::Key(e)),
            Ok(url) => match resolve_opt_path(r.ssh_key_path, st) {
                Err(e) => Err(RepoErrorView::Key(e)),
                Ok(ssh) => match repo_name(path) {
                    None => Err(RepoErrorView::EmptyName),
                    Some(id) => Ok((
                        RepoView { path, url, ssh_key_path: ssh, ..r },
                        st.variables.push((repo_keys(path_attr(), id).0, path)).push((repo_keys(path_attr(), id).1, path))
                            .push((repo_keys(url_attr(), id).0, url)).push((repo_keys(url_attr(), id).1, url)),
                    )),
                },
            },
        },
    }
}

/// A resolved repository has its references substituted in its path, url
/// and ssh key path, and every `~` of its path and of its ssh key path
/// replaced by the home directory (not those of its url); its branch and
/// remote are kept. The ssh key path is expanded exactly as the path is:
/// a key path written like the path resolves like it.
pub proof fn law_repo_paths_are_expanded(r: RepoView, st: ContextState)
    ensures
        repo_resolution(r, st) matches Ok((repo, _)) ==> {
            &&& expand_home(substitution(state_lookup(st), r.path, 0), st.home) == Ok::<Seq<char>, KeyErrorView>(repo.path)
            &&& substitution(state_lookup(st), r.url, 0) == Ok::<Seq<char>, KeyErrorView>(repo.url)
            &&& match r.ssh_key_path {
                Some(k) => repo.ssh_key_path matches Some(x)
                    && expand_home(substitution(state_lookup(st), k, 0), st.home) == Ok::<Seq<char>, KeyErrorView>(x),
                None => repo.ssh_key_path is None,
            }
            &&& r.ssh_key_path == Some(r.path) ==> repo.ssh_key_path == Some(repo.path)
            &&& repo.branch == r.branch
            &&& repo.remote == r.remote
        },
{
}

/// An ssh key path without references resolves to itself with every `~`
/// replaced by the home directory.
pub proof fn law_plain_ssh_key_path_expands_home(r: RepoView, st: ContextState, k: Seq<char>)
    requires
        r.ssh_key_path == Some(k),
        forall|j: int| 0 <= j < k.len() ==> #[trigger] reference_end(k, j) is None,
    ensures
        repo_resolution(r, st) matches Ok((repo, _)) ==> repo.ssh_key_path == Some(replace_char(k, '~', st.home)),
{
    law_text_without_references_is_kept(state_lookup(st), k);
}

impl Repo {
    /// Substitutes the repository's path, url and ssh key path, and
    /// publishes its path and url as `repo.*` and `repo#<name>.*` variables.
    pub fn resolve(&self, context: &mut Context) -> (r: Result<Repo, RepoError>)
        ensures
            match repo_resolution(self@, state_of(old(context))) {
                Ok((repo, vars)) => r matches Ok(x) && x@ == repo && state_of(final(context))
                    == (ContextState { variables: vars, ..state_of(old(context)) }),
                Err(e) => r matches Err(x) && x@ == e && state_of(final(context)) == state_of(old(context)),
            },
    {
        proof {
            lemma_context_lookup(context);
            reveal_strlit("path");
            assert("path"@ =~= seq!['p', 'a', 't', 'h']);
            reveal_strlit("url");
            assert("url"@ =~= seq!['u', 'r', 'l']);
        }
        let path = match context.parse_path(self.path.as_str()) {
            Ok(p) => p,
            Err(e) => return Err(RepoError::Key(e)),
        };
        let url = match context.parse_str(self.url.as_str()) {
            Ok(u) => u,
            Err(e) => return Err(RepoError::Key(e)),
        };
        let ssh_key_path = match &self.ssh_key_path {
            None => None,
            Some(k) => match context.parse_path(k.as_str()) {
                Ok(p) => Some(p),
                Err(e) => return Err(RepoError::Key(e)),
            },
        };
        let new = Repo {
            path,
            url,
            branch: copy_opt(&self.branch),
            remote: copy_opt(&self.remote),
            ssh_key_path,
        };
        let id = match new.name() {
            Ok(n) => n,
            Err(e) => return Err(e),
        };
        context.variables.push(Self::object_key(owned("path")), copy_string(&new.path));
        context.variables.push(Self::object_instance_key(owned("path"), copy_string(&id)), copy_string(&new.path));
        context.variables.push(Self::object_key(owned("url")), copy_string(&new.url));
        context.variables.push(Self::object_instance_key(owned("url"), id), copy_string(&new.url));
        Ok(new)
    }
}

/// Branch used when none is given.
pub open spec fn default_branch() -> Seq<char> {
    seq!['m', 'a', 'i', 'n']
}

/// Remote used when none is given.
pub open spec fn default_remote() -> Seq<char> {
    seq!['o', 'r', 'i', 'g', 'i', 'n']
}

/// User name used for credentials when the url names none.
pub open spec fn default_git_user() -> Seq<char> {
    seq!['g', 'i', 't']
}

/// The given value, or `d` when there is none.
pub open spec fn or_default(o: Option<Seq<char>>, d: Seq<char>) -> Seq<char> {
    match o {
        Some(v) => v,
        None => d,
    }
}

/// The given string, or a copy of `d` when there is none.
fn value_or(o: &Option<String>, d: &str) -> (r: String)
    ensures
        r@ == or_default(opt_view(*o), d@),
{
    match o {
        Some(v) => copy_string(v),
        None => owned(d),
    }
}

/// How to have a repository on disk.
pub enum Requirement {
    /// Use the repository that opened at the path.
    Open,
    /// Clone `url` into `path`, checking out `branch`.
    Clone { url: String, path: String, branch: String },
}

/// Credential offered when the remote asks for one.
pub enum Credential {
    /// The user name alone.
    Username { user: String },
    /// The ssh key at `key_path`, for `user`.
    SshKey { user: String, key_path: String },
    /// Git's default credential.
    Default,
}

/// What a merge of the fetched branch into the local one would be.
pub struct MergeAnalysis {
    /// The local branch already holds the fetched commit.
    pub up_to_date: bool,
    /// The local branch can be moved forward to the fetched commit.
    pub fast_forward: bool,
}

/// What pulling a repository does.
pub enum PullStep {
    /// Nothing: the branch is up to date.
    UpToDate,
    /// Move `reference` to the fetched commit, make it the head and check it out.
    FastForward { reference: String },
}

/// The reference of a local branch.
pub open spec fn branch_reference(branch: Seq<char>) -> Seq<char> {
    seq!['r', 'e', 'f', 's', '/', 'h', 'e', 'a', 'd', 's', '/'] + branch
}

impl Repo {
    /// The branch to check out: the configured one, `main` by default.
    pub fn branch_name(&self) -> (r: String)
        ensures
            r@ == or_default(self@.branch, default_branch()),
    {
        proof {
            reveal_strlit("main");
            assert("main"@ =~= default_branch());
        }
        value_or(&self.branch, "main")
    }

    /// The remote to fetch from: the configured one, `origin` by default.
    pub fn remote_name(&self) -> (r: String)
        ensures
            r@ == or_default(self@.remote, default_remote()),
    {
        proof {
            reveal_strlit("origin");
            assert("origin"@ =~= default_remote());
        }
        value_or(&self.remote, "origin")
    }

    /// Whether the repository is available, given whether the repository at
    /// its path opened.
    pub fn is_available(&self, opened: &Result<(), String>) -> (r: bool)
        ensures
            r == opened is Ok,
    {
        opened.is_ok()
    }

    /// How to have the repository on disk, given whether the repository at
    /// its path opened: use it, or else clone the url into the path on the branch.
    pub fn require(&self, opened: &Result<(), String>) -> (r: Requirement)
        ensures
            opened is Ok ==> r is Open,
            opened is Err ==> (r matches Requirement::Clone { url, path, branch } && url@ == self@.url
                && path@ == self@.path && branch@ == or_default(self@.branch, default_branch())),
    {
        match opened {
            Ok(()) => Requirement::Open,
            Err(_) => Requirement::Clone {
                url: copy_string(&self.url),
                path: copy_string(&self.path),
                branch: self.branch_name(),
            },
        }
    }

    /// The credential to offer: the user name when the remote accepts one,
    /// else the configured ssh key, else git's default; the user is the one
    /// named by the url, `git` by default.
    pub fn credential(&self, user_from_url: Option<String>, username_allowed: bool) -> (r: Credential)
        ensures
            username_allowed ==> (r matches Credential::Username { user }
                && user@ == or_default(opt_view(user_from_url), default_git_user())),
            !username_allowed && self@.ssh_key_path is Some ==> (r matches Credential::SshKey { user, key_path }
                && user@ == or_default(opt_view(user_from_url), default_git_user())
                && Some(key_path@) == self@.ssh_key_path),
            !username_allowed && self@.ssh_key_path is None ==> r is Default,
    {
        proof {
            reveal_strlit("git");
            assert("git"@ =~= default_git_user());
        }
        let user = value_or(&user_from_url, "git");
        if username_allowed {
            Credential::Username { user }
        } else {
            match &self.ssh_key_path {
                Some(k) => Credential::SshKey { user, key_path: copy_string(k) },
                None => Credential::Default,
            }
        }
    }

    /// What pulling does after the branch was fetched: nothing when up to
    /// date, a fast-forward of `refs/heads/<branch>` when possible, and an
    /// error otherwise.
    pub fn pull_step(&self, analysis: &MergeAnalysis) -> (r: Result<PullStep, RepoError>)
        ensures
            analysis.up_to_date ==> r matches Ok(PullStep::UpToDate),
            !analysis.up_to_date && analysis.fast_forward ==> (r matches Ok(PullStep::FastForward { reference })
                && reference@ == branch_reference(or_default(self@.branch, default_branch()))),
            !analysis.up_to_date && !analysis.fast_forward ==> r matches Err(RepoError::NoFastForward),
    {
        proof {
            reveal_strlit("refs/heads/");
            assert("refs/heads/"@ =~= seq!['r', 'e', 'f', 's', '/', 'h', 'e', 'a', 'd', 's', '/']);
        }
        if analysis.up_to_date {
            Ok(PullStep::UpToDate)
        } else if analysis.fast_forward {
            let mut reference = owned("refs/heads/");
            let branch = self.branch_name();
            push_str(&mut reference, branch.as_str());
            Ok(PullStep::FastForward { reference })
        } else {
            Err(RepoError::NoFastForward)
        }
    }
}

/// A repository without a branch checks out `main`, without a remote
/// fetches from `origin`, and offers the user `git` when its url names
/// none; a branch `b` is updated through the reference `refs/heads/b`. A
/// configured value always wins over the default.
pub proof fn law_repo_defaults(b: Seq<char>, given: Seq<char>, d: Seq<char>)
    ensures
        default_branch() == seq!['m', 'a', 'i', 'n'],
        default_remote() == seq!['o', 'r', 'i', 'g', 'i', 'n'],
        default_git_user() == seq!['g', 'i', 't'],
        branch_reference(b) == seq!['r', 'e', 'f', 's', '/', 'h', 'e', 'a', 'd', 's', '/'] + b,
        or_default(Some(given), d) == given,
        or_default(None, d) == d,
{
}

} // verus!
