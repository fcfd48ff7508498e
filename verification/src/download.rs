//! Naming a downloaded file after what the server says of it.

use crate::text::{chars_of, find_in, first_occurrence, strip_range, stripped, Strip};
use vstd::prelude::*;

verus! {

/// The name given to a download that the server does not name.
pub open spec fn fallback_name() -> Seq<char> {
    "downloaded_file"@
}

/// What follows the first `marker` in `text`.
pub open spec fn after_first(text: Seq<char>, marker: Seq<char>) -> Option<Seq<char>> {
    match first_occurrence(text, marker) {
        Some(at) => Some(text.skip(at + marker.len())),
        None => None,
    }
}

/// What stands before the first `marker` in `text`, or all of `text` where
/// it holds none.
pub open spec fn before_first(text: Seq<char>, marker: Seq<char>) -> Seq<char> {
    match first_occurrence(text, marker) {
        Some(at) => text.take(at),
        None => text,
    }
}

/// The file name that a content-disposition header gives: what stands between
/// the first `filename=` and the next one or the end, without the double
/// quotes at both ends. Without a header, or without `filename=` in it, the
/// fallback name.
pub open spec fn file_name_of(disposition: Option<Seq<char>>) -> Seq<char> {
    match disposition {
        Some(header) => match after_first(header, "filename="@) {
            Some(rest) => stripped(before_first(rest, "filename="@), Strip::Char('"')),
            None => fallback_name(),
        },
        None => fallback_name(),
    }
}

/// The name under which a download is stored, from the content-disposition
/// header of the response, if it has one that is text.
pub fn download_file_name(disposition: Option<&str>) -> (r: String)
    ensures
        r@ == file_name_of(
            match disposition {
                Some(header) => Some(header@),
                None => None,
            },
        ),
{
    let header = match disposition {
        Some(header) => chars_of(header),
        None => {
            return "downloaded_file".to_owned();
        },
    };
    let marker = chars_of("filename=");
    let start: usize = match find_in(&header, &marker) {
        Some(at) => at + marker.len(),
        None => {
            return "downloaded_file".to_owned();
        },
    };
    let mut rest: Vec<char> = Vec::new();
    let mut i: usize = start;
    while i < header.len()
        invariant
            start <= i <= header.len(),
            rest@ == header@.subrange(start as int, i as int),
        decreases header.len() - i,
    {
        rest.push(header[i]);
        i += 1;
    }
    assert(rest@ == header@.skip(start as int));
    let end: usize = match find_in(&rest, &marker) {
        Some(at) => at,
        None => rest.len(),
    };
    assert(rest@.subrange(0, end as int) == before_first(rest@, marker@));
    strip_range(&rest, 0, end, Strip::Char('"'))
}

} // verus!
