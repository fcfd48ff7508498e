//! The manifest: which files belong to the installed application.
//!
//! A manifest is a text with one relative path or wildcard pattern per line.
//! Where it is missing or blank, so that no line of it names anything, a
//! built-in list stands in for it, one for the layout of a Linux build and
//! one for that of a Windows build.

use crate::text::{
    chars_of, is_space, lemma_stripped_to_nothing, strip_range, stripped, texts, Strip,
};
use vstd::prelude::*;

verus! {

/// The name of the manifest file, directly under the root.
pub const MANIFEST_FILE: &'static str = "manifest.txt";

/// `line` without the white space at its start and at its end.
pub open spec fn trimmed(line: Seq<char>) -> Seq<char> {
    stripped(line, Strip::WhiteSpace)
}

/// The text of a line feed.
pub open spec fn line_feed() -> Seq<char> {
    seq!['\n']
}

/// The index of the first line feed in `text`, or the length of `text` where
/// it has none.
pub open spec fn line_end(text: Seq<char>) -> int {
    match crate::text::first_occurrence(text, line_feed()) {
        Some(at) => at,
        None => text.len() as int,
    }
}

/// The lines of `text`: what stands between line feeds. The last line needs
/// no line feed, and nothing follows a final line feed.
pub open spec fn lines_of(text: Seq<char>) -> Seq<Seq<char>>
    decreases text.len(),
{
    let end = line_end(text);
    if text.len() == 0 {
        Seq::empty()
    } else if 0 <= end < text.len() {
        seq![text.take(end)] + lines_of(text.skip(end + 1))
    } else {
        seq![text]
    }
}

/// The entries of a manifest text: its lines, each trimmed.
pub open spec fn manifest_entries(text: Seq<char>) -> Seq<Seq<char>> {
    lines_of(text).map_values(|line: Seq<char>| trimmed(line))
}

/// The built-in list of a Linux build.
pub open spec fn linux_defaults() -> Seq<Seq<char>> {
    seq!["PrismLauncher"@, "bin"@, "share"@, "lib"@]
}

/// The built-in list of a Windows build; its last entry is a wildcard for
/// the Qt libraries.
pub open spec fn windows_defaults() -> Seq<Seq<char>> {
    seq![
        "jars"@,
        "prismlauncher.exe"@,
        "prismlauncher_filelink.exe"@,
        "prismlauncher_updater.exe"@,
        "qtlogging.ini"@,
        "imageformats"@,
        "iconengines"@,
        "platforms"@,
        "styles"@,
        "tls"@,
        "qt.conf"@,
        "Qt*.dll"@,
    ]
}

/// The built-in list for the family of the target system.
pub open spec fn default_entries(is_linux: bool) -> Seq<Seq<char>> {
    if is_linux {
        linux_defaults()
    } else {
        windows_defaults()
    }
}

/// Some entry is not empty.
pub open spec fn names_something(entries: Seq<Seq<char>>) -> bool {
    exists|i: int| 0 <= i < entries.len() && (#[trigger] entries[i]).len() > 0
}

/// A manifest text is blank when none of its entries names anything: when
/// it is empty or made of white space alone.
pub open spec fn is_blank(text: Seq<char>) -> bool {
    !names_something(manifest_entries(text))
}

/// The patterns to resolve: the entries of the manifest where there is one
/// and it is not blank, and the built-in list otherwise.
pub open spec fn patterns_of(contents: Option<Seq<char>>, is_linux: bool) -> Seq<Seq<char>> {
    match contents {
        Some(text) => if is_blank(text) {
            default_entries(is_linux)
        } else {
            manifest_entries(text)
        },
        None => default_entries(is_linux),
    }
}

/// A blank manifest gives what a missing one gives.
pub proof fn lemma_blank_is_absent(text: Seq<char>, is_linux: bool)
    requires
        is_blank(text),
    ensures
        patterns_of(Some(text), is_linux) == patterns_of(None, is_linux),
{
}

/// The lines of a text whose first line ends at `end`.
proof fn lemma_lines_step(text: Seq<char>, end: int)
    requires
        0 <= end <= text.len(),
        text.len() > 0,
        forall|i: int| 0 <= i < end ==> text[i] != '\n',
        end < text.len() ==> text[end] == '\n',
    ensures
        end < text.len() ==> lines_of(text) == seq![text.take(end)] + lines_of(text.skip(end + 1)),
        end == text.len() ==> lines_of(text) == seq![text],
{
    let feed = line_feed();
    if end < text.len() {
        assert(text.subrange(end, end + 1) == feed);
        assert forall|earlier: int| 0 <= earlier < end implies !crate::text::occurs_at(
            text,
            feed,
            earlier,
        ) by {
            if crate::text::occurs_at(text, feed, earlier) {
                assert(text.subrange(earlier, earlier + 1)[0] == '\n');
            }
        }
        crate::text::lemma_first_occurrence_unique(text, feed, end);
    } else {
        assert forall|at: int| !crate::text::occurs_at(text, feed, at) by {
            if crate::text::occurs_at(text, feed, at) {
                assert(text.subrange(at, at + 1)[0] == '\n');
            }
        }
    }
}

/// The index at which the first line of `text` ends, looked for from `from`
/// on.
proof fn first_line_end(text: Seq<char>, from: int) -> (end: int)
    requires
        0 <= from <= text.len(),
        forall|i: int| 0 <= i < from ==> text[i] != '\n',
    ensures
        0 <= end <= text.len(),
        forall|i: int| 0 <= i < end ==> text[i] != '\n',
        end < text.len() ==> text[end] == '\n',
    decreases text.len() - from,
{
    if from == text.len() || text[from] == '\n' {
        from
    } else {
        first_line_end(text, from + 1)
    }
}

/// Some character of `text` is no white space.
pub open spec fn shows_something(text: Seq<char>) -> bool {
    exists|i: int| 0 <= i < text.len() && !is_space(#[trigger] text[i])
}

/// A manifest text is blank exactly when it is empty or made of white space
/// alone.
pub proof fn lemma_blank_is_white_space(text: Seq<char>)
    ensures
        is_blank(text) <==> !shows_something(text),
    decreases text.len(),
{
    let trim = |line: Seq<char>| trimmed(line);
    let entries = manifest_entries(text);
    if text.len() == 0 {
        assert(entries.len() == 0);
    } else {
        let end = first_line_end(text, 0);
        lemma_lines_step(text, end);
        let first = text.take(end);
        lemma_stripped_to_nothing(first, Strip::WhiteSpace);
        if end == text.len() {
            assert(first == text);
            assert(entries == seq![trimmed(text)]);
            if names_something(entries) {
                let k = choose|k: int| 0 <= k < entries.len() && (#[trigger] entries[k]).len() > 0;
                assert(entries[k] == trimmed(text));
            }
            if shows_something(text) {
                assert(entries[0].len() > 0);
            }
        } else {
            let rest = text.skip(end + 1);
            lemma_blank_is_white_space(rest);
            let later = manifest_entries(rest);
            assert(entries == seq![trimmed(first)] + later) by {
                assert((seq![first] + lines_of(rest)).map_values(trim) == seq![first].map_values(
                    trim,
                ) + lines_of(rest).map_values(trim));
                assert(seq![first].map_values(trim) == seq![trimmed(first)]);
            }
            assert(is_space(text[end]));
            if names_something(entries) {
                let k = choose|k: int| 0 <= k < entries.len() && (#[trigger] entries[k]).len() > 0;
                if k == 0 {
                    assert(entries[0] == trimmed(first));
                    let i = choose|i: int| 0 <= i < first.len() && !is_space(#[trigger] first[i]);
                    assert(text[i] == first[i]);
                } else {
                    assert(later[k - 1] == entries[k]);
                    assert(names_something(later));
                    let j = choose|j: int| 0 <= j < rest.len() && !is_space(#[trigger] rest[j]);
                    assert(text[end + 1 + j] == rest[j]);
                }
            }
            if shows_something(text) {
                let i = choose|i: int| 0 <= i < text.len() && !is_space(#[trigger] text[i]);
                if i < end {
                    assert(first[i] == text[i]);
                    assert(entries[0] == trimmed(first));
                    assert(entries[0].len() > 0);
                } else {
                    assert(rest[i - end - 1] == text[i]);
                    assert(shows_something(rest));
                    let k = choose|k: int| 0 <= k < later.len() && (#[trigger] later[k]).len() > 0;
                    assert(entries[k + 1] == later[k]);
                }
            }
        }
    }
}

/// The entries of the manifest text `contents`: its lines, each trimmed of
/// white space at both ends.
pub fn read_manifest(contents: &str) -> (r: Vec<String>)
    ensures
        texts(r@) == manifest_entries(contents@),
{
    let text = chars_of(contents);
    let ghost trim = |line: Seq<char>| trimmed(line);
    let mut entries: Vec<String> = Vec::new();
    let mut start: usize = 0;
    let mut i: usize = 0;
    assert(texts(entries@) == Seq::<Seq<char>>::empty());
    assert(text@.skip(0) == text@);
    while i < text.len()
        invariant
            start <= i <= text.len(),
            text@ == contents@,
            trim == (|line: Seq<char>| trimmed(line)),
            forall|j: int| start <= j < i ==> text@[j] != '\n',
            manifest_entries(text@) == texts(entries@) + lines_of(
                text@.skip(start as int),
            ).map_values(trim),
        decreases text.len() - i,
    {
        if text[i] == '\n' {
            let entry = strip_range(&text, start, i, Strip::WhiteSpace);
            proof {
                let rest = text@.skip(start as int);
                lemma_lines_step(rest, i - start);
                assert(rest.take(i - start) == text@.subrange(start as int, i as int));
                assert(rest.skip(i - start + 1) == text@.skip(i + 1));
                let first = seq![rest.take(i - start)];
                let others = lines_of(text@.skip(i + 1));
                assert((first + others).map_values(trim) == first.map_values(trim)
                    + others.map_values(trim));
                assert(first.map_values(trim) == seq![entry@]);
                assert(texts(entries@.push(entry)) == texts(entries@) + seq![entry@]);
            }
            entries.push(entry);
            start = i + 1;
        }
        i += 1;
    }
    if start < text.len() {
        let entry = strip_range(&text, start, text.len(), Strip::WhiteSpace);
        proof {
            let rest = text@.skip(start as int);
            lemma_lines_step(rest, rest.len() as int);
            assert(rest == text@.subrange(start as int, text.len() as int));
            assert(seq![rest].map_values(trim) == seq![entry@]);
            assert(texts(entries@.push(entry)) == texts(entries@) + seq![entry@]);
        }
        entries.push(entry);
    } else {
        assert(lines_of(text@.skip(start as int)).map_values(trim) == Seq::<Seq<char>>::empty());
    }
    entries
}

/// The built-in list for the family of the target system.
pub fn default_manifest(is_linux: bool) -> (r: Vec<String>)
    ensures
        texts(r@) == default_entries(is_linux),
{
    let mut list: Vec<String> = Vec::new();
    if is_linux {
        list.push("PrismLauncher".to_owned());
        list.push("bin".to_owned());
        list.push("share".to_owned());
        list.push("lib".to_owned());
    } else {
        list.push("jars".to_owned());
        list.push("prismlauncher.exe".to_owned());
        list.push("prismlauncher_filelink.exe".to_owned());
        list.push("prismlauncher_updater.exe".to_owned());
        list.push("qtlogging.ini".to_owned());
        list.push("imageformats".to_owned());
        list.push("iconengines".to_owned());
        list.push("platforms".to_owned());
        list.push("styles".to_owned());
        list.push("tls".to_owned());
        list.push("qt.conf".to_owned());
        list.push("Qt*.dll".to_owned());
    }
    assert(texts(list@) =~= default_entries(is_linux));
    list
}

/// Whether an entry of `entries` is not empty.
fn any_named(entries: &Vec<String>) -> (r: bool)
    ensures
        r == names_something(texts(entries@)),
{
    let mut i: usize = 0;
    while i < entries.len()
        invariant
            i <= entries.len(),
            forall|j: int| 0 <= j < i ==> texts(entries@)[j].len() == 0,
        decreases entries.len() - i,
    {
        assert(texts(entries@)[i as int] == entries@[i as int]@);
        if !entries[i].as_str().is_empty() {
            return true;
        }
        i += 1;
    }
    false
}

/// The patterns to resolve against the root: the entries of the manifest
/// `contents` where the root has a manifest and it is not blank, and the
/// built-in list otherwise.
pub fn manifest_patterns(contents: Option<&str>, is_linux: bool) -> (r: Vec<String>)
    ensures
        texts(r@) == patterns_of(
            match contents {
                Some(text) => Some(text@),
                None => None,
            },
            is_linux,
        ),
{
    match contents {
        Some(text) => {
            let entries = read_manifest(text);
            if any_named(&entries) {
                entries
            } else {
                default_manifest(is_linux)
            }
        },
        None => default_manifest(is_linux),
    }
}

} // verus!
