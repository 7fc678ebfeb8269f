//! A model of the storage that a host works on, and what becomes of a search
//! or a store when a host serves it from such storage.
//!
//! The model is a map from paths to entries. Paths are compared as text: two
//! spellings of one place are two paths. An operation is refused only where
//! the entries forbid it; a refusal changes nothing.

use crate::error::ErrorView;
use crate::locate::{after_probe, after_read, search_at, LocateStepView};
use crate::path::{parent_of, SEPARATOR};
use crate::persist::{after_ensure_dir, after_write, persist_start, PersistStepView};
use crate::resolver::{candidate_paths, ResolverView};
use vstd::prelude::*;

verus! {

/// What storage holds at a path.
pub enum Entry {
    /// A text file, with its content.
    File(Seq<char>),
    /// Something that cannot be read as text.
    Unreadable,
    /// A directory.
    Directory,
}

/// The entries of a storage, and the reason it gives when it refuses.
pub struct Storage {
    pub entries: Map<Seq<char>, Entry>,
    pub refusal: Seq<char>,
}

/// `above` is `dir` itself or a directory on the way down to it.
pub open spec fn leads_to(above: Seq<char>, dir: Seq<char>) -> bool {
    ||| above == dir
    ||| {
        &&& 0 < above.len() < dir.len()
        &&& dir[above.len() as int] == SEPARATOR
        &&& dir.take(above.len() as int) == above
    }
}

/// The path ends in a name: it is not empty and does not end in a separator.
pub open spec fn names_a_file(path: Seq<char>) -> bool {
    path.len() > 0 && path.last() != SEPARATOR
}

impl Storage {
    /// Something lies at the path.
    pub open spec fn has(self, path: Seq<char>) -> bool {
        self.entries.dom().contains(path)
    }

    /// A directory lies at the path.
    pub open spec fn is_directory(self, path: Seq<char>) -> bool {
        self.has(path) && self.entries[path] is Directory
    }

    /// The content of the text file at the path, where one lies there.
    pub open spec fn read(self, path: Seq<char>) -> Option<Seq<char>> {
        if self.has(path) {
            match self.entries[path] {
                Entry::File(content) => Some(content),
                _ => None,
            }
        } else {
            None
        }
    }

    /// Nothing but directories lies on the way down to `dir`.
    pub open spec fn admits_dirs(self, dir: Seq<char>) -> bool {
        forall|above: Seq<char>| #[trigger]
            leads_to(above, dir) && self.has(above) ==> self.entries[above] is Directory
    }

    /// The storage with `dir` and every missing directory on the way to it.
    pub open spec fn with_dirs(self, dir: Seq<char>) -> Storage {
        Storage {
            entries: Map::new(
                |path: Seq<char>| self.has(path) || leads_to(path, dir),
                |path: Seq<char>|
                    if self.has(path) {
                        self.entries[path]
                    } else {
                        Entry::Directory
                    },
            ),
            refusal: self.refusal,
        }
    }

    /// The path can take a file: it names one, no directory lies there, and
    /// the directory that holds it is in place.
    pub open spec fn admits_file(self, path: Seq<char>) -> bool {
        &&& names_a_file(path)
        &&& !self.is_directory(path)
        &&& parent_of(path) matches Some(dir) ==> self.is_directory(dir)
    }

    /// The storage with a text file of the given content at the path.
    pub open spec fn with_file(self, path: Seq<char>, content: Seq<char>) -> Storage {
        Storage { entries: self.entries.insert(path, Entry::File(content)), refusal: self.refusal }
    }

    /// Serves the request to create `dir` and what is missing above it.
    pub open spec fn create_dir_all(self, dir: Seq<char>) -> (Result<(), Seq<char>>, Storage) {
        if self.admits_dirs(dir) {
            (Ok(()), self.with_dirs(dir))
        } else {
            (Err(self.refusal), self)
        }
    }

    /// Serves the request to write `content` at `path`.
    pub open spec fn write(self, path: Seq<char>, content: Seq<char>) -> (
        Result<(), Seq<char>>,
        Storage,
    ) {
        if self.admits_file(path) {
            (Ok(()), self.with_file(path, content))
        } else {
            (Err(self.refusal), self)
        }
    }

    /// The result of a search that is served from this storage, from the
    /// given step on.
    pub open spec fn finish_search(self, step: LocateStepView) -> Result<Seq<char>, ErrorView>
        decreases steps_left(step),
    {
        match step {
            LocateStepView::Probe(search) => {
                if search.in_range() {
                    self.finish_search(after_probe(search, self.has(search.path())))
                } else {
                    Err(ErrorView::NotFound { filename: search.filename })
                }
            },
            LocateStepView::Read(search) => {
                if search.in_range() {
                    self.finish_search(after_read(search, self.read(search.path())))
                } else {
                    Err(ErrorView::NotFound { filename: search.filename })
                }
            },
            LocateStepView::Done(result) => result,
        }
    }

    /// The result of `locate` for `filename`, served from this storage.
    pub open spec fn locate(self, resolver: ResolverView, filename: Seq<char>) -> Result<
        Seq<char>,
        ErrorView,
    > {
        self.finish_search(search_at(filename, candidate_paths(resolver.roots, filename), 0))
    }

    /// The result of a store that is served from this storage, from the
    /// given step on, and the storage that it leaves.
    pub open spec fn finish_store(self, step: PersistStepView) -> (Result<(), ErrorView>, Storage)
        decreases stages_left(step),
    {
        match step {
            PersistStepView::EnsureDir(ensure) => {
                let (outcome, next) = self.create_dir_all(ensure.dir);
                next.finish_store(after_ensure_dir(ensure, outcome))
            },
            PersistStepView::Write(write) => {
                let (outcome, next) = self.write(write.path, write.content);
                next.finish_store(after_write(write, outcome))
            },
            PersistStepView::Done(result) => (result, self),
        }
    }

    /// The storage on which a store asks for its write, where the store gets
    /// that far when it is served from this storage from the given step on.
    pub open spec fn at_the_write(self, step: PersistStepView) -> Option<Storage>
        decreases stages_left(step),
    {
        match step {
            PersistStepView::EnsureDir(ensure) => {
                let (outcome, next) = self.create_dir_all(ensure.dir);
                next.at_the_write(after_ensure_dir(ensure, outcome))
            },
            PersistStepView::Write(_) => Some(self),
            PersistStepView::Done(_) => None,
        }
    }

    /// The result of `persist` for `filename` and `content`, served from
    /// this storage, and the storage that it leaves.
    pub open spec fn persist(
        self,
        resolver: ResolverView,
        filename: Seq<char>,
        content: Seq<char>,
    ) -> (Result<(), ErrorView>, Storage) {
        self.finish_store(persist_start(resolver.canonical, filename, content))
    }
}

/// An upper bound on the requests that a search still makes.
pub open spec fn steps_left(step: LocateStepView) -> nat {
    match step {
        LocateStepView::Probe(search) => if search.in_range() {
            (2 * (search.candidates.len() - search.index)) as nat
        } else {
            0
        },
        LocateStepView::Read(search) => if search.in_range() {
            (2 * (search.candidates.len() - search.index) - 1) as nat
        } else {
            0
        },
        LocateStepView::Done(_) => 0,
    }
}

/// An upper bound on the requests that a store still makes.
pub open spec fn stages_left(step: PersistStepView) -> nat {
    match step {
        PersistStepView::EnsureDir(_) => 2,
        PersistStepView::Write(_) => 1,
        PersistStepView::Done(_) => 0,
    }
}

} // verus!
