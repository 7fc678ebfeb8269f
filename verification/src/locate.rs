//! The search for a document: each candidate path is probed in turn, a path
//! that exists is read, and the first successful read ends the search.
//!
//! The search never touches the file system. It names the path to probe or
//! to read, the host reports what it found there, and the report selects
//! the next step.

use crate::error::{ErrorView, ResolveError};
use crate::path::text_of;
use crate::resolver::{candidate_paths, texts, Resolver};
use vstd::prelude::*;
use vstd::string::*;

verus! {

/// Where a search stands: the document it looks for, the candidate paths in
/// search order, and the position of the candidate under examination.
pub struct SearchView {
    pub filename: Seq<char>,
    pub candidates: Seq<Seq<char>>,
    pub index: int,
}

impl SearchView {
    /// The candidate under examination.
    pub open spec fn path(self) -> Seq<char> {
        self.candidates[self.index]
    }

    /// The position names one of the candidates.
    pub open spec fn in_range(self) -> bool {
        0 <= self.index < self.candidates.len()
    }
}

/// A step of a search as plain values.
pub enum LocateStepView {
    Probe(SearchView),
    Read(SearchView),
    Done(Result<Seq<char>, ErrorView>),
}

/// The step with which the search takes up the candidate at `index`: a probe
/// of that candidate, or, where the candidates are used up, the failure that
/// names the document.
pub open spec fn search_at(
    filename: Seq<char>,
    candidates: Seq<Seq<char>>,
    index: int,
) -> LocateStepView {
    if index < candidates.len() {
        LocateStepView::Probe(SearchView { filename, candidates, index })
    } else {
        LocateStepView::Done(Err(ErrorView::NotFound { filename }))
    }
}

/// The step after a probe: a path that exists is read, a path that does not
/// is passed over.
pub open spec fn after_probe(search: SearchView, exists: bool) -> LocateStepView {
    if exists {
        LocateStepView::Read(search)
    } else {
        search_at(search.filename, search.candidates, search.index + 1)
    }
}

/// The step after a read: content that was read is the result, as it was
/// read; a failed read is passed over like a missing path.
pub open spec fn after_read(search: SearchView, content: Option<Seq<char>>) -> LocateStepView {
    match content {
        Some(text) => LocateStepView::Done(Ok(text)),
        None => search_at(search.filename, search.candidates, search.index + 1),
    }
}

struct Cursor {
    filename: String,
    candidates: Vec<String>,
    index: usize,
}

impl Cursor {
    #[verifier::type_invariant]
    spec fn in_range(self) -> bool {
        self.index < self.candidates.len()
    }

    spec fn plain(self) -> SearchView {
        SearchView {
            filename: self.filename@,
            candidates: texts(self.candidates@),
            index: self.index as int,
        }
    }

    fn path(&self) -> (path: &str)
        ensures
            path@ == self.plain().path(),
    {
        proof {
            use_type_invariant(self);
        }
        self.candidates[self.index].as_str()
    }

    fn pass_over(self) -> (step: LocateStep)
        ensures
            step@ == search_at(self.plain().filename, self.plain().candidates, self.index + 1),
    {
        proof {
            use_type_invariant(&self);
        }
        take_up(self.filename, self.candidates, self.index + 1)
    }
}

/// A search that waits to learn whether its candidate path exists.
pub struct Probing {
    cursor: Cursor,
}

/// A search that waits for the content of its candidate path.
pub struct Reading {
    cursor: Cursor,
}

/// What a search asks of the host next, or how it ended.
pub enum LocateStep {
    /// Report whether the path exists.
    Probe(Probing),
    /// Read the whole file at the path as text.
    Read(Reading),
    /// The search is over: the document's content, or the failure.
    Done(Result<String, ResolveError>),
}

impl View for Probing {
    type V = SearchView;

    closed spec fn view(&self) -> SearchView {
        self.cursor.plain()
    }
}

impl View for Reading {
    type V = SearchView;

    closed spec fn view(&self) -> SearchView {
        self.cursor.plain()
    }
}

impl View for LocateStep {
    type V = LocateStepView;

    open spec fn view(&self) -> LocateStepView {
        match self {
            LocateStep::Probe(probing) => LocateStepView::Probe(probing@),
            LocateStep::Read(reading) => LocateStepView::Read(reading@),
            LocateStep::Done(Ok(text)) => LocateStepView::Done(Ok(text@)),
            LocateStep::Done(Err(error)) => LocateStepView::Done(Err(error@)),
        }
    }
}

fn take_up(filename: String, candidates: Vec<String>, index: usize) -> (step: LocateStep)
    ensures
        step@ == search_at(filename@, texts(candidates@), index as int),
        step matches LocateStep::Probe(probing) ==> probing@.in_range(),
{
    if index < candidates.len() {
        LocateStep::Probe(Probing { cursor: Cursor { filename, candidates, index } })
    } else {
        LocateStep::Done(Err(ResolveError::NotFound { filename }))
    }
}

impl Probing {
    /// The path to probe.
    pub fn path(&self) -> (path: &str)
        ensures
            self@.in_range(),
            path@ == self@.path(),
    {
        proof {
            use_type_invariant(&self.cursor);
        }
        self.cursor.path()
    }

    /// Takes the host's report on whether the path exists.
    pub fn answer(self, exists: bool) -> (step: LocateStep)
        ensures
            step@ == after_probe(self@, exists),
    {
        if exists {
            LocateStep::Read(Reading { cursor: self.cursor })
        } else {
            self.cursor.pass_over()
        }
    }
}

impl Reading {
    /// The path to read.
    pub fn path(&self) -> (path: &str)
        ensures
            self@.in_range(),
            path@ == self@.path(),
    {
        proof {
            use_type_invariant(&self.cursor);
        }
        self.cursor.path()
    }

    /// Takes the content that the host read at the path, or `None` where
    /// the read failed.
    pub fn answer(self, content: Option<String>) -> (step: LocateStep)
        ensures
            step@ == after_read(self@, text_of(content)),
    {
        match content {
            Some(text) => LocateStep::Done(Ok(text)),
            None => self.cursor.pass_over(),
        }
    }
}

impl Resolver {
    /// Begins the search for `filename`: the first candidate is the first
    /// root's path for it.
    pub fn locate(&self, filename: &str) -> (step: LocateStep)
        ensures
            step@ == search_at(filename@, candidate_paths(self@.roots, filename@), 0),
            step is Probe,
    {
        let candidates = self.candidates(filename);
        take_up(String::from_str(filename), candidates, 0)
    }
}

} // verus!
