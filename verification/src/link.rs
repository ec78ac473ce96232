//! Symbolic links written `head -> tail`, expanded with a store of
//! `namespace.variable` values.
use vstd::prelude::*;
use crate::context::parse::{KeyError, KeyErrorView, result_view};
use crate::yaml::{Context, ContextView, expansion};

verus! {

/// Symbolic link: the link at `head` points to `tail`.
pub struct Link {
    pub head: String,
    pub tail: String,
}

/// Mathematical form of a [`Link`].
pub struct LinkView {
    pub head: Seq<char>,
    pub tail: Seq<char>,
}

impl View for Link {
    type V = LinkView;

    open spec fn view(&self) -> LinkView {
        LinkView { head: self.head@, tail: self.tail@ }
    }
}

/// `path` with its references substituted and `~` expanded in `context`.
pub fn expand_path(path: &str, context: &Context) -> (r: Result<String, KeyError>)
    ensures
        result_view(&r) == expansion(context@, path@),
{
    context.substitute(path)
}

/// The link with both paths expanded in `c`, or the first error.
pub open spec fn link_expansion(l: LinkView, c: ContextView) -> Result<LinkView, KeyErrorView> {
    match expansion(c, l.head) {
        Err(e) => Err(e),
        Ok(head) => match expansion(c, l.tail) {
            Err(e) => Err(e),
            Ok(tail) => Ok(LinkView { head, tail }),
        },
    }
}

impl Link {
    /// The link `head -> tail`.
    pub fn new(head: String, tail: String) -> (r: Link)
        ensures
            r@ == (LinkView { head: head@, tail: tail@ }),
    {
        Link { head, tail }
    }

    /// The link with both paths expanded in `context`.
    pub fn expand(&self, context: &Context) -> (r: Result<Link, KeyError>)
        ensures
            match link_expansion(self@, context@) {
                Ok(l) => r matches Ok(x) && x@ == l,
                Err(e) => r matches Err(x) && x@ == e,
            },
    {
        let head = match expand_path(self.head.as_str(), context) {
            Ok(h) => h,
            Err(e) => return Err(e),
        };
        let tail = match expand_path(self.tail.as_str(), context) {
            Ok(t) => t,
            Err(e) => return Err(e),
        };
        Ok(Link { head, tail })
    }
}

/// Both ends of a link are expanded alike: its head and its tail each have
/// their references substituted and every `~` replaced by the home
/// directory; the first that cannot be expanded fails the link.
pub proof fn law_link_ends_expand_alike(l: LinkView, c: ContextView)
    ensures
        link_expansion(l, c) matches Ok(x) ==> expansion(c, l.head) == Ok::<Seq<char>, KeyErrorView>(x.head)
            && expansion(c, l.tail) == Ok::<Seq<char>, KeyErrorView>(x.tail),
        (expansion(c, l.head) is Ok && expansion(c, l.tail) is Ok) <==> link_expansion(l, c) is Ok,
        l.head == l.tail && link_expansion(l, c) is Ok ==> link_expansion(l, c)->Ok_0.head == link_expansion(l, c)->Ok_0.tail,
{
}

} // verus!
