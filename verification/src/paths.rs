//! Paths as text: the location of a file relative to a root, and the same
//! location under another root.
//!
//! The paths handed in are absolute and free of `.`, `..` and repeated
//! separators, as a file system reports them; the separator is the caller's.

use crate::text::{
    chars_of, optional_text, same_chars, starts_with, starts_with_text, string_of, string_of_range,
};
use vstd::prelude::*;

verus! {

/// `text` begins with `part` and has the separator right behind it.
pub open spec fn starts_with_dir(text: Seq<char>, part: Seq<char>, separator: char) -> bool {
    starts_with_text(text, part.push(separator))
}

/// The location of `path` relative to `root`: empty for the root itself,
/// what follows the root and one separator for a path below it, and `None`
/// for a path that does not lie under the root. A root that ends in the
/// separator needs no further one.
pub open spec fn relative_to(path: Seq<char>, root: Seq<char>, separator: char) -> Option<
    Seq<char>,
> {
    if path == root {
        Some(Seq::empty())
    } else if root.len() > 0 && root.last() == separator && starts_with_text(path, root) {
        Some(path.skip(root.len() as int))
    } else if starts_with_dir(path, root, separator) {
        Some(path.skip(root.len() as int + 1))
    } else {
        None
    }
}

/// The location `relative` under `base`: `base` itself for the empty
/// location, otherwise `base`, one separator unless `base` is empty or ends in
/// one, and `relative`.
pub open spec fn joined(base: Seq<char>, relative: Seq<char>, separator: char) -> Seq<char> {
    if relative.len() == 0 {
        base
    } else if base.len() == 0 || base.last() == separator {
        base + relative
    } else {
        base.push(separator) + relative
    }
}

/// `at` is the index of the last separator in `path`.
pub open spec fn is_last_separator(path: Seq<char>, separator: char, at: int) -> bool {
    &&& 0 <= at < path.len()
    &&& path[at] == separator
    &&& forall|later: int| at < later < path.len() ==> path[later] != separator
}

/// The directory that holds `path`: what stands before the last separator,
/// the separator itself where it opens the path, and the empty path where
/// `path` has no separator.
pub open spec fn parent_of(path: Seq<char>, separator: char) -> Seq<char> {
    if exists|at: int| is_last_separator(path, separator, at) {
        let at = choose|at: int| is_last_separator(path, separator, at);
        if at == 0 {
            path.take(1)
        } else {
            path.take(at)
        }
    } else {
        Seq::empty()
    }
}

/// A location joined under a root lies at that same location relative to the
/// root: a file keeps its relative path when it is moved from one root to
/// another.
pub proof fn lemma_joined_is_relative(base: Seq<char>, relative: Seq<char>, separator: char)
    requires
        relative.len() > 0,
        relative[0] != separator,
        base.len() > 0,
    ensures
        relative_to(joined(base, relative, separator), base, separator) == Some(relative),
{
    let full = joined(base, relative, separator);
    if base.last() == separator {
        assert(full.subrange(0, base.len() as int) == base);
        assert(full.skip(base.len() as int) == relative);
    } else {
        let prefix = base.push(separator);
        assert(full.subrange(0, prefix.len() as int) == prefix);
        assert(full.skip(base.len() as int + 1) == relative);
        assert(full != base);
    }
}

/// The location of `path` relative to `root`.
pub fn strip_root(path: &str, root: &str, separator: char) -> (r: Option<String>)
    ensures
        optional_text(r) == relative_to(path@, root@, separator),
{
    let full = chars_of(path);
    let base = chars_of(root);
    if same_chars(&full, &base) {
        return Some(String::new());
    }
    if base.len() > 0 && base[base.len() - 1] == separator && starts_with(&full, &base) {
        return Some(string_of_range(&full, base.len(), full.len()));
    }
    let mut prefix = chars_of(root);
    prefix.push(separator);
    if starts_with(&full, &prefix) {
        return Some(string_of_range(&full, prefix.len(), full.len()));
    }
    None
}

/// The location `relative` under `base`.
pub fn join_path(base: &str, relative: &str, separator: char) -> (r: String)
    ensures
        r@ == joined(base@, relative@, separator),
{
    let mut whole = chars_of(base);
    let mut rest = chars_of(relative);
    if rest.len() == 0 {
        return string_of(&whole);
    }
    if whole.len() > 0 && whole[whole.len() - 1] != separator {
        whole.push(separator);
    }
    whole.append(&mut rest);
    string_of(&whole)
}

/// The directory that holds `path`.
pub fn parent_dir(path: &str, separator: char) -> (r: String)
    ensures
        r@ == parent_of(path@, separator),
{
    let full = chars_of(path);
    let mut at: usize = full.len();
    while at > 0
        invariant
            at <= full.len(),
            full@ == path@,
            forall|later: int| at <= later < full.len() ==> full@[later] != separator,
        decreases at,
    {
        at -= 1;
        if full[at] == separator {
            assert(is_last_separator(full@, separator, at as int));
            proof {
                let chosen = choose|k: int| is_last_separator(full@, separator, k);
                if chosen < at {
                    assert(full@[at as int] != separator);
                }
                if at < chosen {
                    assert(full@[chosen] != separator);
                }
            }
            if at == 0 {
                return string_of_range(&full, 0, 1);
            }
            return string_of_range(&full, 0, at);
        }
    }
    String::new()
}

} // verus!
