//! Storing a document: the content goes to one path, the document's name
//! under the canonical root. The directory that holds that path is ensured
//! first, the content is written second, and the first refusal ends the
//! attempt with the path that refused and the host's reason.
//!
//! Like the search, storing never touches the file system: it names what the
//! host is to do and takes the host's report.

use crate::error::{ErrorView, ResolveError};
use crate::path::{joined, parent, parent_of};
use crate::resolver::Resolver;
use vstd::prelude::*;
use vstd::string::*;

verus! {

/// What is to be written: the document's name, the path that receives it,
/// and the content.
pub struct WriteView {
    pub filename: Seq<char>,
    pub path: Seq<char>,
    pub content: Seq<char>,
}

/// A write that waits for its directory.
pub struct EnsureView {
    pub write: WriteView,
    pub dir: Seq<char>,
}

impl EnsureView {
    /// The directory is the one that holds the path.
    pub open spec fn holds_path(self) -> bool {
        parent_of(self.write.path) == Some(self.dir)
    }
}

/// A step of storing as plain values.
pub enum PersistStepView {
    EnsureDir(EnsureView),
    Write(WriteView),
    Done(Result<(), ErrorView>),
}

/// The first step of storing `content` as `filename` under `canonical`: the
/// directory of the target path is to be ensured; a target without a
/// directory of its own is written at once.
pub open spec fn persist_start(
    canonical: Seq<char>,
    filename: Seq<char>,
    content: Seq<char>,
) -> PersistStepView {
    let path = joined(canonical, filename);
    let write = WriteView { filename, path, content };
    match parent_of(path) {
        Some(dir) => PersistStepView::EnsureDir(EnsureView { write, dir }),
        None => PersistStepView::Write(write),
    }
}

/// The step after the directory was asked for: the write, or the failure
/// that names the directory.
pub open spec fn after_ensure_dir(
    ensure: EnsureView,
    outcome: Result<(), Seq<char>>,
) -> PersistStepView {
    match outcome {
        Ok(_) => PersistStepView::Write(ensure.write),
        Err(reason) => PersistStepView::Done(
            Err(
                ErrorView::DirectoryCreateFailed {
                    filename: ensure.write.filename,
                    path: ensure.dir,
                    reason,
                },
            ),
        ),
    }
}

/// The step after the write was asked for: success, or the failure that
/// names the target path.
pub open spec fn after_write(write: WriteView, outcome: Result<(), Seq<char>>) -> PersistStepView {
    match outcome {
        Ok(_) => PersistStepView::Done(Ok(())),
        Err(reason) => PersistStepView::Done(
            Err(ErrorView::WriteFailed { filename: write.filename, path: write.path, reason }),
        ),
    }
}

/// The host's report on an operation, with the reason of a refusal as text.
pub open spec fn outcome_view(outcome: Result<(), String>) -> Result<(), Seq<char>> {
    match outcome {
        Ok(_) => Ok(()),
        Err(reason) => Err(reason@),
    }
}

struct Job {
    filename: String,
    path: String,
    content: String,
}

impl Job {
    spec fn plain(self) -> WriteView {
        WriteView { filename: self.filename@, path: self.path@, content: self.content@ }
    }
}

/// A store that waits for the directory of its target to exist.
pub struct EnsuringDir {
    job: Job,
    dir: String,
}

/// A store that waits for its content to be written.
pub struct Writing {
    job: Job,
}

/// What storing asks of the host next, or how it ended.
pub enum PersistStep {
    /// Create the directory and every missing directory above it.
    EnsureDir(EnsuringDir),
    /// Write the content at the path, replacing what is there.
    Write(Writing),
    /// Storing is over.
    Done(Result<(), ResolveError>),
}

impl View for EnsuringDir {
    type V = EnsureView;

    closed spec fn view(&self) -> EnsureView {
        EnsureView { write: self.job.plain(), dir: self.dir@ }
    }
}

impl View for Writing {
    type V = WriteView;

    closed spec fn view(&self) -> WriteView {
        self.job.plain()
    }
}

impl View for PersistStep {
    type V = PersistStepView;

    open spec fn view(&self) -> PersistStepView {
        match self {
            PersistStep::EnsureDir(ensuring) => PersistStepView::EnsureDir(ensuring@),
            PersistStep::Write(writing) => PersistStepView::Write(writing@),
            PersistStep::Done(Ok(_)) => PersistStepView::Done(Ok(())),
            PersistStep::Done(Err(error)) => PersistStepView::Done(Err(error@)),
        }
    }
}

impl EnsuringDir {
    #[verifier::type_invariant]
    spec fn holds_path(self) -> bool {
        parent_of(self.job.path@) == Some(self.dir@)
    }

    /// The directory to create: the one that holds the target path.
    pub fn dir(&self) -> (dir: &str)
        ensures
            dir@ == self@.dir,
            self@.holds_path(),
    {
        proof {
            use_type_invariant(self);
        }
        self.dir.as_str()
    }

    /// Takes the host's report on creating the directory.
    pub fn answer(self, outcome: Result<(), String>) -> (step: PersistStep)
        ensures
            step@ == after_ensure_dir(self@, outcome_view(outcome)),
    {
        match outcome {
            Ok(_) => PersistStep::Write(Writing { job: self.job }),
            Err(reason) => PersistStep::Done(
                Err(
                    ResolveError::DirectoryCreateFailed {
                        filename: self.job.filename,
                        path: self.dir,
                        reason,
                    },
                ),
            ),
        }
    }
}

impl Writing {
    /// The path to write at.
    pub fn path(&self) -> (path: &str)
        ensures
            path@ == self@.path,
    {
        self.job.path.as_str()
    }

    /// The content to write, whole and unchanged.
    pub fn content(&self) -> (content: &str)
        ensures
            content@ == self@.content,
    {
        self.job.content.as_str()
    }

    /// Takes the host's report on the write.
    pub fn answer(self, outcome: Result<(), String>) -> (step: PersistStep)
        ensures
            step@ == after_write(self@, outcome_view(outcome)),
    {
        match outcome {
            Ok(_) => PersistStep::Done(Ok(())),
            Err(reason) => PersistStep::Done(
                Err(
                    ResolveError::WriteFailed {
                        filename: self.job.filename,
                        path: self.job.path,
                        reason,
                    },
                ),
            ),
        }
    }
}

impl Resolver {
    /// Begins storing `content` as `filename` under the canonical root.
    pub fn persist(&self, filename: &str, content: &str) -> (step: PersistStep)
        ensures
            step@ == persist_start(self@.canonical, filename@, content@),
            !(step is Done),
    {
        let path = self.target(filename);
        let dir = parent(path.as_str());
        let job = Job {
            filename: String::from_str(filename),
            path,
            content: String::from_str(content),
        };
        match dir {
            Some(dir) => PersistStep::EnsureDir(EnsuringDir { job, dir }),
            None => PersistStep::Write(Writing { job }),
        }
    }
}

} // verus!
