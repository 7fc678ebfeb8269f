//! What holds of every search and every store, proved over the storage
//! model: which copy a search returns, when it fails, what a store leaves
//! behind, and that a search after a store finds what was stored.

use crate::error::ErrorView;
use crate::locate::{search_at, LocateStepView, SearchView};
use crate::path::{joined, lemma_last_separator, parent_of};
use crate::persist::persist_start;
use crate::resolver::{candidate_paths, ResolverView};
use crate::storage::{leads_to, names_a_file, Entry, Storage};
use vstd::prelude::*;

verus! {

/// A search that has reached the candidate at `from` returns `content` if a
/// later candidate at `at` holds it and every candidate between the two
/// holds that same content or nothing readable.
proof fn lemma_search_reaches(
    storage: Storage,
    filename: Seq<char>,
    candidates: Seq<Seq<char>>,
    from: int,
    at: int,
    content: Seq<char>,
)
    requires
        0 <= from <= at < candidates.len(),
        storage.read(candidates[at]) == Some(content),
        forall|k: int|
            from <= k < at ==> storage.read(#[trigger] candidates[k]) is None || storage.read(
                candidates[k],
            ) == Some(content),
    ensures
        storage.finish_search(search_at(filename, candidates, from)) == Ok::<
            Seq<char>,
            ErrorView,
        >(content),
    decreases at - from,
{
    let search = SearchView { filename, candidates, index: from };
    assert(search_at(filename, candidates, from) == LocateStepView::Probe(search));
    assert(search.in_range());
    reveal_with_fuel(Storage::finish_search, 3);
    if storage.read(candidates[from]) == Some(content) {
    } else {
        lemma_search_reaches(storage, filename, candidates, from + 1, at, content);
    }
}

/// A search that has reached the candidate at `from` fails as not found if
/// no candidate from there on holds anything readable.
proof fn lemma_search_runs_out(
    storage: Storage,
    filename: Seq<char>,
    candidates: Seq<Seq<char>>,
    from: int,
)
    requires
        0 <= from <= candidates.len(),
        forall|k: int| from <= k < candidates.len() ==> storage.read(#[trigger] candidates[k]) is None,
    ensures
        storage.finish_search(search_at(filename, candidates, from)) == Err::<
            Seq<char>,
            ErrorView,
        >(ErrorView::NotFound { filename }),
    decreases candidates.len() - from,
{
    reveal_with_fuel(Storage::finish_search, 3);
    if from < candidates.len() {
        let search = SearchView { filename, candidates, index: from };
        assert(search.in_range());
        lemma_search_runs_out(storage, filename, candidates, from + 1);
    }
}

/// A search that has reached the candidate at `from` and fails has found
/// nothing readable from there on, and fails as not found.
proof fn lemma_search_fails_only_empty_handed(
    storage: Storage,
    filename: Seq<char>,
    candidates: Seq<Seq<char>>,
    from: int,
)
    requires
        0 <= from <= candidates.len(),
        storage.finish_search(search_at(filename, candidates, from)) is Err,
    ensures
        forall|k: int| from <= k < candidates.len() ==> storage.read(#[trigger] candidates[k]) is None,
        storage.finish_search(search_at(filename, candidates, from)) == Err::<
            Seq<char>,
            ErrorView,
        >(ErrorView::NotFound { filename }),
    decreases candidates.len() - from,
{
    reveal_with_fuel(Storage::finish_search, 3);
    if from < candidates.len() {
        let search = SearchView { filename, candidates, index: from };
        assert(search.in_range());
        lemma_search_fails_only_empty_handed(storage, filename, candidates, from + 1);
    }
}

/// The search returns the first readable copy: where the root at `at` holds
/// a readable file for the name and no root before it does, the search gives
/// that file's content.
pub proof fn first_readable_copy_is_returned(
    storage: Storage,
    resolver: ResolverView,
    filename: Seq<char>,
    at: int,
)
    requires
        0 <= at < resolver.roots.len(),
        storage.read(joined(resolver.roots[at], filename)) is Some,
        forall|k: int|
            0 <= k < at ==> storage.read(joined(#[trigger] resolver.roots[k], filename)) is None,
    ensures
        storage.locate(resolver, filename) == Ok::<Seq<char>, ErrorView>(
            storage.read(joined(resolver.roots[at], filename))->0,
        ),
{
    let candidates = candidate_paths(resolver.roots, filename);
    let content = storage.read(joined(resolver.roots[at], filename))->0;
    assert forall|k: int| 0 <= k < at implies storage.read(#[trigger] candidates[k]) is None by {
        assert(candidates[k] == joined(resolver.roots[k], filename));
    }
    lemma_search_reaches(storage, filename, candidates, 0, at, content);
}

/// A document that lies under one root only is found wherever that root
/// stands in the order: where the root at `at` holds a readable file for the
/// name and nothing lies at any other candidate path, the search gives that
/// file's content.
pub proof fn sole_copy_is_found(
    storage: Storage,
    resolver: ResolverView,
    filename: Seq<char>,
    at: int,
)
    requires
        0 <= at < resolver.roots.len(),
        storage.read(joined(resolver.roots[at], filename)) is Some,
        forall|k: int|
            0 <= k < resolver.roots.len() && joined(#[trigger] resolver.roots[k], filename)
                != joined(resolver.roots[at], filename) ==> !storage.has(
                joined(resolver.roots[k], filename),
            ),
    ensures
        storage.locate(resolver, filename) == Ok::<Seq<char>, ErrorView>(
            storage.read(joined(resolver.roots[at], filename))->0,
        ),
{
    let candidates = candidate_paths(resolver.roots, filename);
    let content = storage.read(joined(resolver.roots[at], filename))->0;
    assert forall|k: int| 0 <= k < at implies storage.read(#[trigger] candidates[k]) is None
        || storage.read(candidates[k]) == Some(content) by {
        assert(candidates[k] == joined(resolver.roots[k], filename));
    }
    lemma_search_reaches(storage, filename, candidates, 0, at, content);
}

/// Of two roots that both hold a readable file for the name, the earlier
/// one wins: where no root before the earlier of the two holds a readable
/// copy, the search gives the earlier root's content, and so never the
/// later root's where the two differ.
pub proof fn earlier_copy_wins(
    storage: Storage,
    resolver: ResolverView,
    filename: Seq<char>,
    earlier: int,
    later: int,
)
    requires
        0 <= earlier < later < resolver.roots.len(),
        storage.read(joined(resolver.roots[earlier], filename)) is Some,
        storage.read(joined(resolver.roots[later], filename)) is Some,
        forall|k: int|
            0 <= k < earlier ==> storage.read(joined(#[trigger] resolver.roots[k], filename))
                is None,
    ensures
        storage.locate(resolver, filename) == Ok::<Seq<char>, ErrorView>(
            storage.read(joined(resolver.roots[earlier], filename))->0,
        ),
        storage.read(joined(resolver.roots[later], filename)) != storage.read(
            joined(resolver.roots[earlier], filename),
        ) ==> storage.locate(resolver, filename) != Ok::<Seq<char>, ErrorView>(
            storage.read(joined(resolver.roots[later], filename))->0,
        ),
{
    first_readable_copy_is_returned(storage, resolver, filename, earlier);
}

/// A name that lies under no root is not found: where nothing lies at any
/// candidate path, the search fails with the failure that names the
/// document.
pub proof fn absent_document_is_not_found(
    storage: Storage,
    resolver: ResolverView,
    filename: Seq<char>,
)
    requires
        forall|k: int|
            0 <= k < resolver.roots.len() ==> !storage.has(
                joined(#[trigger] resolver.roots[k], filename),
            ),
    ensures
        storage.locate(resolver, filename) == Err::<Seq<char>, ErrorView>(
            ErrorView::NotFound { filename },
        ),
{
    let candidates = candidate_paths(resolver.roots, filename);
    assert forall|k: int| 0 <= k < candidates.len() implies storage.read(
        #[trigger] candidates[k],
    ) is None by {
        assert(candidates[k] == joined(resolver.roots[k], filename));
    }
    lemma_search_runs_out(storage, filename, candidates, 0);
}

/// A search fails in one way only: a failed search is the failure that
/// names the document, and no candidate path held a readable file.
pub proof fn search_fails_only_as_not_found(
    storage: Storage,
    resolver: ResolverView,
    filename: Seq<char>,
)
    requires
        storage.locate(resolver, filename) is Err,
    ensures
        storage.locate(resolver, filename) == Err::<Seq<char>, ErrorView>(
            ErrorView::NotFound { filename },
        ),
        forall|k: int|
            0 <= k < resolver.roots.len() ==> storage.read(
                joined(#[trigger] resolver.roots[k], filename),
            ) is None,
{
    let candidates = candidate_paths(resolver.roots, filename);
    lemma_search_fails_only_empty_handed(storage, filename, candidates, 0);
    assert forall|k: int| 0 <= k < resolver.roots.len() implies storage.read(
        joined(#[trigger] resolver.roots[k], filename),
    ) is None by {
        assert(candidates[k] == joined(resolver.roots[k], filename));
    }
}

/// A path that names a file does not lie on the way to its own directory.
proof fn lemma_directory_is_above(path: Seq<char>)
    requires
        names_a_file(path),
    ensures
        parent_of(path) matches Some(dir) ==> !leads_to(path, dir) && dir.len() > 0,
{
    lemma_last_separator(path);
}

/// A path under a root ends as the name does.
proof fn lemma_joined_ends_in_name(root: Seq<char>, name: Seq<char>)
    requires
        names_a_file(name),
    ensures
        names_a_file(joined(root, name)),
{
}

/// Creating directories that are in place changes nothing.
proof fn lemma_dirs_stay(storage: Storage, dir: Seq<char>)
    requires
        storage.admits_dirs(dir),
    ensures
        storage.with_dirs(dir).admits_dirs(dir),
        storage.with_dirs(dir).with_dirs(dir) == storage.with_dirs(dir),
        forall|above: Seq<char>| #[trigger]
            leads_to(above, dir) ==> storage.with_dirs(dir).is_directory(above),
{
    let made = storage.with_dirs(dir);
    assert forall|above: Seq<char>| #[trigger] leads_to(above, dir) implies made.is_directory(
        above,
    ) by {
        if storage.has(above) {
            assert(storage.entries[above] is Directory);
        }
    }
    assert(made.with_dirs(dir).entries =~= made.entries);
}

/// What a successful store leaves: the storage before it, with the
/// directories on the way to the target and the target's new content.
proof fn lemma_store_leaves(
    storage: Storage,
    resolver: ResolverView,
    filename: Seq<char>,
    content: Seq<char>,
)
    requires
        storage.persist(resolver, filename, content).0 is Ok,
    ensures
        ({
            let target = joined(resolver.canonical, filename);
            let left = storage.persist(resolver, filename, content).1;
            &&& names_a_file(target)
            &&& match parent_of(target) {
                Some(dir) => {
                    &&& storage.admits_dirs(dir)
                    &&& left == storage.with_dirs(dir).with_file(target, content)
                },
                None => left == storage.with_file(target, content),
            }
        }),
{
    reveal_with_fuel(Storage::finish_store, 3);
}

/// A store succeeds exactly where the storage admits it: the target path
/// names a file, no directory lies at the target, and nothing but
/// directories lies on the way to it. Directories that are missing never
/// make it fail.
pub proof fn persist_succeeds_exactly_when_admitted(
    storage: Storage,
    resolver: ResolverView,
    filename: Seq<char>,
    content: Seq<char>,
)
    ensures
        storage.persist(resolver, filename, content).0 is Ok <==> ({
            let target = joined(resolver.canonical, filename);
            &&& names_a_file(target)
            &&& !storage.is_directory(target)
            &&& parent_of(target) matches Some(dir) ==> storage.admits_dirs(dir)
        }),
{
    let target = joined(resolver.canonical, filename);
    reveal_with_fuel(Storage::finish_store, 3);
    if names_a_file(target) {
        lemma_directory_is_above(target);
        if let Some(dir) = parent_of(target) {
            if storage.admits_dirs(dir) {
                lemma_dirs_stay(storage, dir);
            }
        }
    }
}

/// A store into storage that holds nothing succeeds for every name that
/// names a file, however many directories the name passes through.
pub proof fn persist_succeeds_on_empty_storage(
    storage: Storage,
    resolver: ResolverView,
    filename: Seq<char>,
    content: Seq<char>,
)
    requires
        storage.entries == Map::<Seq<char>, Entry>::empty(),
        names_a_file(filename),
    ensures
        storage.persist(resolver, filename, content).0 is Ok,
{
    lemma_joined_ends_in_name(resolver.canonical, filename);
    persist_succeeds_exactly_when_admitted(storage, resolver, filename, content);
}

/// A store creates the directories that were missing: after a successful
/// store the target holds the content, and the directory of the target and
/// every directory on the way to it are in place.
pub proof fn stored_document_lies_in_its_directories(
    storage: Storage,
    resolver: ResolverView,
    filename: Seq<char>,
    content: Seq<char>,
)
    requires
        storage.persist(resolver, filename, content).0 is Ok,
    ensures
        ({
            let target = joined(resolver.canonical, filename);
            let left = storage.persist(resolver, filename, content).1;
            &&& left.read(target) == Some(content)
            &&& parent_of(target) matches Some(dir) ==> forall|above: Seq<char>| #[trigger]
                leads_to(above, dir) ==> left.is_directory(above)
        }),
{
    let target = joined(resolver.canonical, filename);
    lemma_store_leaves(storage, resolver, filename, content);
    lemma_directory_is_above(target);
    if let Some(dir) = parent_of(target) {
        lemma_dirs_stay(storage, dir);
    }
}

/// The write is asked for only once its directory is in place: whatever
/// the storage held before, the storage on which a store asks for its write
/// holds the directory of the target as a directory. A store whose directory
/// was refused asks for no write.
pub proof fn directory_is_in_place_at_the_write(
    storage: Storage,
    resolver: ResolverView,
    filename: Seq<char>,
    content: Seq<char>,
)
    ensures
        ({
            let start = persist_start(resolver.canonical, filename, content);
            match parent_of(joined(resolver.canonical, filename)) {
                Some(dir) => {
                    &&& storage.at_the_write(start) is Some <==> storage.admits_dirs(dir)
                    &&& storage.at_the_write(start) matches Some(reached) ==> reached.is_directory(
                        dir,
                    )
                },
                None => storage.at_the_write(start) == Some(storage),
            }
        }),
{
    reveal_with_fuel(Storage::at_the_write, 3);
    if let Some(dir) = parent_of(joined(resolver.canonical, filename)) {
        if storage.admits_dirs(dir) {
            lemma_dirs_stay(storage, dir);
        }
    }
}

/// A search after a store finds what was stored: where the store succeeded,
/// the root at `at` leads to the path that was written, and no other path
/// that is searched before it holds a readable copy, the search gives the
/// content that was stored.
pub proof fn read_after_write(
    storage: Storage,
    resolver: ResolverView,
    filename: Seq<char>,
    content: Seq<char>,
    at: int,
)
    requires
        storage.persist(resolver, filename, content).0 is Ok,
        0 <= at < resolver.roots.len(),
        joined(resolver.roots[at], filename) == joined(resolver.canonical, filename),
        forall|k: int|
            0 <= k < at && joined(#[trigger] resolver.roots[k], filename) != joined(
                resolver.canonical,
                filename,
            ) ==> storage.read(joined(resolver.roots[k], filename)) is None,
    ensures
        storage.persist(resolver, filename, content).1.locate(resolver, filename) == Ok::<
            Seq<char>,
            ErrorView,
        >(content),
{
    let target = joined(resolver.canonical, filename);
    let left = storage.persist(resolver, filename, content).1;
    let candidates = candidate_paths(resolver.roots, filename);
    lemma_store_leaves(storage, resolver, filename, content);
    assert(left.read(target) == Some(content));
    assert forall|k: int| 0 <= k < at implies left.read(#[trigger] candidates[k]) is None
        || left.read(candidates[k]) == Some(content) by {
        assert(candidates[k] == joined(resolver.roots[k], filename));
        if candidates[k] != target {
            assert(storage.read(candidates[k]) is None);
        }
    }
    assert(candidates[at] == target);
    lemma_search_reaches(left, filename, candidates, 0, at, content);
}

/// Storing twice is storing once: the second of two equal stores in a row
/// ends as the first did and leaves the storage as the first left it.
pub proof fn persist_twice_is_persist_once(
    storage: Storage,
    resolver: ResolverView,
    filename: Seq<char>,
    content: Seq<char>,
)
    ensures
        storage.persist(resolver, filename, content).1.persist(resolver, filename, content)
            == storage.persist(resolver, filename, content),
{
    let target = joined(resolver.canonical, filename);
    let once = storage.persist(resolver, filename, content);
    reveal_with_fuel(Storage::finish_store, 3);
    match parent_of(target) {
        Some(dir) => {
            if storage.admits_dirs(dir) {
                let made = storage.with_dirs(dir);
                lemma_dirs_stay(storage, dir);
                if made.admits_file(target) {
                    lemma_directory_is_above(target);
                    let left = made.with_file(target, content);
                    assert(left.admits_dirs(dir)) by {
                        assert forall|above: Seq<char>| #[trigger]
                            leads_to(above, dir) && left.has(above) implies left.entries[above]
                            is Directory by {
                            assert(made.is_directory(above));
                        }
                    }
                    assert(left.with_dirs(dir).entries =~= left.entries);
                    assert(left.with_file(target, content).entries =~= left.entries);
                }
            }
        },
        None => {
            if storage.admits_file(target) {
                let left = storage.with_file(target, content);
                assert(left.with_file(target, content).entries =~= left.entries);
            }
        },
    }
}

/// A search after one store or after two finds the same content: under the
/// conditions of `read_after_write`, the search that follows a repeated
/// store gives the content that was stored.
pub proof fn search_after_repeated_store(
    storage: Storage,
    resolver: ResolverView,
    filename: Seq<char>,
    content: Seq<char>,
    at: int,
)
    requires
        storage.persist(resolver, filename, content).0 is Ok,
        0 <= at < resolver.roots.len(),
        joined(resolver.roots[at], filename) == joined(resolver.canonical, filename),
        forall|k: int|
            0 <= k < at && joined(#[trigger] resolver.roots[k], filename) != joined(
                resolver.canonical,
                filename,
            ) ==> storage.read(joined(resolver.roots[k], filename)) is None,
    ensures
        storage.persist(resolver, filename, content).1.persist(
            resolver,
            filename,
            content,
        ).1.locate(resolver, filename) == Ok::<Seq<char>, ErrorView>(content),
        storage.persist(resolver, filename, content).1.locate(resolver, filename) == Ok::<
            Seq<char>,
            ErrorView,
        >(content),
{
    persist_twice_is_persist_once(storage, resolver, filename, content);
    read_after_write(storage, resolver, filename, content, at);
}

} // verus!
