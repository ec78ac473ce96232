//! Symbolic links (`source` -> `target`).
use vstd::prelude::*;
use crate::text::copy_string;
use crate::context::{Context, expand_home};
use crate::context::parse::{KeyError, KeyErrorView, result_view, substitution, lookup_of};

verus! {

/// Symbolic link: the link at `source` points to the real file `target`.
pub struct Link {
    /// Path of the symbolic link.
    pub source: String,
    /// Path of the real file.
    pub target: String,
}

/// Mathematical form of a [`Link`].
pub struct LinkView {
    pub source: Seq<char>,
    pub target: Seq<char>,
}

impl View for Link {
    type V = LinkView;

    open spec fn view(&self) -> LinkView {
        LinkView { source: self.source@, target: self.target@ }
    }
}

/// Whether two paths name the same location component by component
/// (`Path == Path`).
pub uninterp spec fn same_path(a: Seq<char>, b: Seq<char>) -> bool;

/// `Path::eq` on two paths given as strings: the contract names the
/// answer, the component rules stay the standard library's.
#[verifier::external_body]
fn paths_equal(a: &str, b: &str) -> (r: bool)
    ensures
        r == same_path(a@, b@),
{
    std::path::Path::new(a) == std::path::Path::new(b)
}

/// What was found on disk for a link.
pub struct LinkProbe {
    /// Whether the target exists.
    pub target_exists: bool,
    /// What the source links to (`Ok`), or why it could not be read as a link (`Err`).
    pub source_link: Result<String, String>,
    /// Whether something exists at the source.
    pub source_exists: bool,
}

/// State of a link on disk.
pub enum Status {
    /// The source links to the target.
    Valid,
    /// Nothing is at the source.
    NullSource,
    /// The target does not exist.
    NullTarget,
    /// Something that is not a link is at the source.
    InvalidSource(String),
    /// The source links somewhere else (that place is given).
    InvalidTarget(String),
}

/// Spec form of a [`Status`].
pub enum StatusView {
    Valid,
    NullSource,
    NullTarget,
    InvalidSource(Seq<char>),
    InvalidTarget(Seq<char>),
}

impl View for Status {
    type V = StatusView;

    open spec fn view(&self) -> StatusView {
        match self {
            Status::Valid => StatusView::Valid,
            Status::NullSource => StatusView::NullSource,
            Status::NullTarget => StatusView::NullTarget,
            Status::InvalidSource(e) => StatusView::InvalidSource(e@),
            Status::InvalidTarget(t) => StatusView::InvalidTarget(t@),
        }
    }
}

/// The status of `link` given what was found on disk: a missing target
/// comes first, then what the source links to.
pub open spec fn status_of(link: LinkView, target_exists: bool, source_link: Result<Seq<char>, Seq<char>>, source_exists: bool) -> StatusView {
    if !target_exists {
        StatusView::NullTarget
    } else {
        match source_link {
            Ok(t) => if same_path(t, link.target) {
                StatusView::Valid
            } else {
                StatusView::InvalidTarget(t)
            },
            Err(e) => if source_exists {
                StatusView::InvalidSource(e)
            } else {
                StatusView::NullSource
            },
        }
    }
}

/// A read-link result taken by its view.
pub open spec fn read_view(r: Result<String, String>) -> Result<Seq<char>, Seq<char>> {
    match r {
        Ok(t) => Ok(t@),
        Err(e) => Err(e@),
    }
}

/// What [`Link::link`] has to do.
pub enum LinkAction {
    /// The link is already in place.
    Nothing,
    /// Create the source's parent directories and the link.
    Create,
    /// The link cannot be made.
    Fail(LinkError),
}

/// Why a link cannot be made.
#[derive(Debug)]
pub enum LinkError {
    /// The target does not exist.
    TargetMissing,
    /// Something that is not a link is at the source.
    InvalidSource(String),
    /// The source links somewhere else.
    InvalidTarget(String),
}

impl Link {
    /// `source` -> `target`.
    pub fn new(source: String, target: String) -> (r: Link)
        ensures
            r@ == (LinkView { source: source@, target: target@ }),
    {
        Link { source, target }
    }

    /// The state of the link given what was found on disk.
    pub fn status(&self, probe: &LinkProbe) -> (r: Status)
        ensures
            r@ == status_of(self@, probe.target_exists, read_view(probe.source_link), probe.source_exists),
    {
        let points_to_target = match &probe.source_link {
            Ok(t) => paths_equal(t.as_str(), self.target.as_str()),
            Err(_) => false,
        };
        Self::classify(probe, points_to_target)
    }

    /// The state of a link given what was found on disk and, when the source
    /// is a link, whether it points to the target: a missing target comes
    /// first, then what the source links to.
    pub fn classify(probe: &LinkProbe, points_to_target: bool) -> (r: Status)
        ensures
            !probe.target_exists ==> r is NullTarget,
            probe.target_exists ==> match probe.source_link {
                Ok(t) => if points_to_target { r is Valid } else { r matches Status::InvalidTarget(x) && x@ == t@ },
                Err(e) => if probe.source_exists {
                    r matches Status::InvalidSource(x) && x@ == e@
                } else {
                    r is NullSource
                },
            },
    {
        if !probe.target_exists {
            return Status::NullTarget;
        }
        match &probe.source_link {
            Ok(t) => if points_to_target {
                Status::Valid
            } else {
                Status::InvalidTarget(copy_string(t))
            },
            Err(e) => if probe.source_exists {
                Status::InvalidSource(copy_string(e))
            } else {
                Status::NullSource
            },
        }
    }

    /// Whether the link is in place.
    pub fn is_valid(&self, probe: &LinkProbe) -> (r: bool)
        ensures
            r == (status_of(self@, probe.target_exists, read_view(probe.source_link), probe.source_exists) is Valid),
    {
        match self.status(probe) {
            Status::Valid => true,
            _ => false,
        }
    }

    /// What linking has to do in state `status`.
    pub fn link(&self, status: &Status) -> (r: LinkAction)
        ensures
            match status@ {
                StatusView::Valid => r is Nothing,
                StatusView::NullSource => r is Create,
                StatusView::NullTarget => r matches LinkAction::Fail(LinkError::TargetMissing),
                StatusView::InvalidSource(e) => r matches LinkAction::Fail(LinkError::InvalidSource(x)) && x@ == e,
                StatusView::InvalidTarget(t) => r matches LinkAction::Fail(LinkError::InvalidTarget(x)) && x@ == t,
            },
    {
        match status {
            Status::Valid => LinkAction::Nothing,
            Status::NullSource => LinkAction::Create,
            Status::NullTarget => LinkAction::Fail(LinkError::TargetMissing),
            Status::InvalidSource(e) => LinkAction::Fail(LinkError::InvalidSource(copy_string(e))),
            Status::InvalidTarget(t) => LinkAction::Fail(LinkError::InvalidTarget(copy_string(t))),
        }
    }

    /// Whether unlinking removes the source: only a link in place is removed.
    pub fn unlink(&self, status: &Status) -> (r: bool)
        ensures
            r == (status@ is Valid),
    {
        match status {
            Status::Valid => true,
            _ => false,
        }
    }

    /// Whether cleaning removes the source: only a conflicting file or
    /// link at the source is removed.
    pub fn clean(&self, status: &Status) -> (r: bool)
        ensures
            r == (status@ is InvalidSource || status@ is InvalidTarget),
    {
        match status {
            Status::InvalidSource(_) | Status::InvalidTarget(_) => true,
            _ => false,
        }
    }

    /// The link with both paths substituted and `~` expanded.
    pub fn resolve(&self, context: &Context) -> (r: Result<Link, KeyError>)
        ensures
            match expand_home(substitution(lookup_of(context), self@.source, 0), context.home_dir@) {
                Err(e) => r matches Err(x) && x@ == e,
                Ok(s) => match expand_home(substitution(lookup_of(context), self@.target, 0), context.home_dir@) {
                    Err(e) => r matches Err(x) && x@ == e,
                    Ok(t) => r matches Ok(l) && l@ == (LinkView { source: s, target: t }),
                },
            },
    {
        let source = match context.parse_path(self.source.as_str()) {
            Ok(s) => s,
            Err(e) => return Err(e),
        };
        let target = match context.parse_path(self.target.as_str()) {
            Ok(t) => t,
            Err(e) => return Err(e),
        };
        Ok(Link { source, target })
    }

    /// A copy of the link.
    pub fn duplicate(&self) -> (r: Link)
        ensures
            r@ == self@,
    {
        Link { source: copy_string(&self.source), target: copy_string(&self.target) }
    }
}

/// A link is valid exactly when its target exists and its source is a
/// link to a path that is the same path as the target. A missing target
/// is reported before anything about the source; with the target there, a
/// source that is not a link is missing when nothing is there and invalid
/// otherwise, and a link elsewhere is an invalid target naming where it
/// points.
pub proof fn law_link_status(link: LinkView, target_exists: bool, source_link: Result<Seq<char>, Seq<char>>, source_exists: bool)
    ensures
        (status_of(link, target_exists, source_link, source_exists) is Valid)
            <==> (target_exists && source_link is Ok && same_path(source_link->Ok_0, link.target)),
        !target_exists ==> status_of(link, target_exists, source_link, source_exists) is NullTarget,
        target_exists && source_link is Err && !source_exists ==> status_of(link, target_exists, source_link, source_exists) is NullSource,
        target_exists && source_link is Err && source_exists ==> status_of(link, target_exists, source_link, source_exists)
            == StatusView::InvalidSource(source_link->Err_0),
        target_exists && source_link is Ok && !same_path(source_link->Ok_0, link.target) ==> status_of(link, target_exists, source_link, source_exists)
            == StatusView::InvalidTarget(source_link->Ok_0),
{
}

} // verus!
