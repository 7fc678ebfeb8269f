//! Paths as plain text: joining a root with a file name, and finding the
//! directory that holds a path.

use vstd::prelude::*;
use vstd::string::*;

verus! {

/// The character that separates the components of a path.
pub const SEPARATOR: char = '/';

/// The path of `name` under `root`: the two texts, with one separator put
/// between them unless `root` is empty or already ends in one. The name is
/// taken as it is and never inspected.
pub open spec fn joined(root: Seq<char>, name: Seq<char>) -> Seq<char> {
    if root.len() == 0 || root.last() == SEPARATOR {
        root + name
    } else {
        root + seq![SEPARATOR] + name
    }
}

/// The position of the last separator in `path`, if it holds one.
pub open spec fn last_separator(path: Seq<char>) -> Option<int>
    decreases path.len(),
{
    if path.len() == 0 {
        None
    } else if path.last() == SEPARATOR {
        Some(path.len() - 1)
    } else {
        last_separator(path.drop_last())
    }
}

/// The directory that holds `path`: what stands before the last separator,
/// or the separator alone where nothing stands before it. A path without a
/// separator names an entry of the working directory and has no parent to
/// create.
pub open spec fn parent_of(path: Seq<char>) -> Option<Seq<char>> {
    match last_separator(path) {
        None => None,
        Some(at) => Some(
            if at == 0 {
                seq![SEPARATOR]
            } else {
                path.take(at)
            },
        ),
    }
}

/// The text of a string that may be missing.
pub open spec fn text_of(value: Option<String>) -> Option<Seq<char>> {
    match value {
        Some(text) => Some(text@),
        None => None,
    }
}

/// `last_separator` finds a separator, and none stands after it; it finds
/// none only where the path holds none.
pub proof fn lemma_last_separator(path: Seq<char>)
    ensures
        match last_separator(path) {
            Some(at) => {
                &&& 0 <= at < path.len()
                &&& path[at] == SEPARATOR
                &&& forall|j: int| at < j < path.len() ==> path[j] != SEPARATOR
            },
            None => forall|j: int| 0 <= j < path.len() ==> path[j] != SEPARATOR,
        },
    decreases path.len(),
{
    if path.len() > 0 && path.last() != SEPARATOR {
        let shorter = path.drop_last();
        lemma_last_separator(shorter);
        assert forall|j: int| 0 <= j < shorter.len() implies shorter[j] == path[j] by {}
    }
}

proof fn lemma_last_separator_step(path: Seq<char>, upto: int)
    requires
        0 <= upto < path.len(),
    ensures
        last_separator(path.take(upto + 1)) == if path[upto] == SEPARATOR {
            Some(upto)
        } else {
            last_separator(path.take(upto))
        },
{
    assert(path.take(upto + 1).drop_last() == path.take(upto));
}

/// Joins a root directory and a file name into one path.
pub fn join(root: &str, name: &str) -> (path: String)
    ensures
        path@ == joined(root@, name@),
{
    let length: usize = root.unicode_len();
    let mut path = String::from_str(root);
    if length > 0 && root.get_char(length - 1) != SEPARATOR {
        proof {
            reveal_strlit("/");
        }
        path.append("/");
        assert(path@ == root@ + seq![SEPARATOR]);
    }
    path.append(name);
    path
}

/// The directory that holds `path`, where it has one.
pub fn parent(path: &str) -> (dir: Option<String>)
    ensures
        text_of(dir) == parent_of(path@),
{
    // The count of characters bounds the position counter below.
    let length: usize = path.unicode_len();
    let mut found: Option<usize> = None;
    let mut position: usize = 0;
    for c in it: path.chars()
        invariant
            it.seq() == path@,
            position == it.index(),
            length == path@.len(),
            match found {
                Some(at) => last_separator(path@.take(position as int)) == Some(at as int),
                None => last_separator(path@.take(position as int)) is None,
            },
    {
        proof {
            lemma_last_separator_step(path@, position as int);
        }
        if c == SEPARATOR {
            found = Some(position);
        }
        position = position + 1;
    }
    proof {
        assert(path@.take(position as int) == path@);
        lemma_last_separator(path@);
    }
    match found {
        None => None,
        Some(at) => {
            if at == 0 {
                proof {
                    reveal_strlit("/");
                }
                Some(String::from_str("/"))
            } else {
                Some(String::from_str(path.substring_char(0, at)))
            }
        },
    }
}

} // verus!
