//! The resolver's configuration: the candidate roots in the order in which
//! they are searched, and the one root under which documents are stored.

use crate::path::{join, joined};
use vstd::prelude::*;
use vstd::string::*;

verus! {

/// The texts of a sequence of strings.
pub open spec fn texts(items: Seq<String>) -> Seq<Seq<char>> {
    Seq::new(items.len(), |i: int| items[i]@)
}

/// The path at which each root would hold `filename`, in the roots' order.
pub open spec fn candidate_paths(roots: Seq<Seq<char>>, filename: Seq<char>) -> Seq<Seq<char>> {
    Seq::new(roots.len(), |i: int| joined(roots[i], filename))
}

/// The roots that are searched, first to last, and the root that is written
/// to. The list of roots is never empty and never changes.
pub struct Resolver {
    roots: Vec<String>,
    canonical: String,
}

/// A `Resolver` as plain text values.
pub struct ResolverView {
    pub roots: Seq<Seq<char>>,
    pub canonical: Seq<char>,
}

/// The layout that is used where the host configures none: four places
/// where the shared data directory may lie, the one beside the working
/// directory first, and that same one as the place to write.
pub open spec fn bundled_layout() -> ResolverView {
    ResolverView {
        roots: seq!["../public/data/"@, "public/data/"@, "./public/data/"@, "data/"@],
        canonical: "../public/data/"@,
    }
}

impl View for Resolver {
    type V = ResolverView;

    closed spec fn view(&self) -> ResolverView {
        ResolverView { roots: texts(self.roots@), canonical: self.canonical@ }
    }
}

impl Resolver {
    #[verifier::type_invariant]
    spec fn has_roots(self) -> bool {
        self.roots@.len() > 0
    }

    /// A resolver that searches `roots` in the given order and writes under
    /// `canonical`. An empty list of roots is refused.
    pub fn new(roots: Vec<String>, canonical: String) -> (made: Option<Resolver>)
        ensures
            made is Some <==> roots@.len() > 0,
            made matches Some(resolver) ==> resolver@ == (ResolverView {
                roots: texts(roots@),
                canonical: canonical@,
            }),
    {
        if roots.len() == 0 {
            None
        } else {
            Some(Resolver { roots, canonical })
        }
    }

    /// The resolver of the bundled layout.
    pub fn bundled() -> (resolver: Resolver)
        ensures
            resolver@ == bundled_layout(),
    {
        let mut roots: Vec<String> = Vec::new();
        roots.push(String::from_str("../public/data/"));
        roots.push(String::from_str("public/data/"));
        roots.push(String::from_str("./public/data/"));
        roots.push(String::from_str("data/"));
        let resolver = Resolver { roots, canonical: String::from_str("../public/data/") };
        assert(resolver@.roots == bundled_layout().roots);
        resolver
    }

    /// The roots in the order in which they are searched: at least one.
    pub fn roots(&self) -> (roots: &Vec<String>)
        ensures
            texts(roots@) == self@.roots,
            roots@.len() > 0,
    {
        proof {
            use_type_invariant(self);
        }
        &self.roots
    }

    /// The root under which documents are stored.
    pub fn canonical(&self) -> (root: &str)
        ensures
            root@ == self@.canonical,
    {
        self.canonical.as_str()
    }

    /// The path at which each root would hold `filename`, in search order.
    pub fn candidates(&self, filename: &str) -> (paths: Vec<String>)
        ensures
            texts(paths@) == candidate_paths(self@.roots, filename@),
            paths@.len() > 0,
    {
        proof {
            use_type_invariant(self);
        }
        let mut paths: Vec<String> = Vec::new();
        let mut index: usize = 0;
        while index < self.roots.len()
            invariant
                index <= self.roots@.len(),
                paths@.len() == index,
                forall|i: int| 0 <= i < index ==> paths@[i]@ == joined(self.roots@[i]@, filename@),
            decreases self.roots@.len() - index,
        {
            paths.push(join(self.roots[index].as_str(), filename));
            index = index + 1;
        }
        assert(texts(paths@) == candidate_paths(self@.roots, filename@));
        paths
    }

    /// The path at which `filename` is stored.
    pub fn target(&self, filename: &str) -> (path: String)
        ensures
            path@ == joined(self@.canonical, filename@),
    {
        join(self.canonical.as_str(), filename)
    }
}

} // verus!
