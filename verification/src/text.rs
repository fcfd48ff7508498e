//! Character-level text operations with exact specifications.
//!
//! Every string in this crate is reasoned about through its view, a
//! `Seq<char>`. The executable functions here work on `Vec<char>` so that a
//! character can be read in constant time.

use vstd::prelude::*;

verus! {

/// The views of a list of strings.
pub open spec fn texts(list: Seq<String>) -> Seq<Seq<char>> {
    list.map_values(|s: String| s@)
}

/// The view of an optional string.
pub open spec fn optional_text(text: Option<String>) -> Option<Seq<char>> {
    match text {
        Some(s) => Some(s@),
        None => None,
    }
}

/// `part` stands in `text` starting at index `at`.
pub open spec fn occurs_at(text: Seq<char>, part: Seq<char>, at: int) -> bool {
    &&& 0 <= at
    &&& at + part.len() <= text.len()
    &&& text.subrange(at, at + part.len()) == part
}

/// `part` stands somewhere in `text`.
pub open spec fn contains_text(text: Seq<char>, part: Seq<char>) -> bool {
    exists|at: int| occurs_at(text, part, at)
}

/// `text` begins with `part`.
pub open spec fn starts_with_text(text: Seq<char>, part: Seq<char>) -> bool {
    occurs_at(text, part, 0)
}

/// `text` ends with `part`.
pub open spec fn ends_with_text(text: Seq<char>, part: Seq<char>) -> bool {
    occurs_at(text, part, text.len() - part.len())
}

/// `at` is the leftmost index at which `part` stands in `text`.
pub open spec fn is_first_occurrence(text: Seq<char>, part: Seq<char>, at: int) -> bool {
    &&& occurs_at(text, part, at)
    &&& forall|earlier: int| 0 <= earlier < at ==> !occurs_at(text, part, earlier)
}

/// The leftmost index at which `part` stands in `text`, if it stands there at all.
pub open spec fn first_occurrence(text: Seq<char>, part: Seq<char>) -> Option<int> {
    if contains_text(text, part) {
        Some(choose|at: int| is_first_occurrence(text, part, at))
    } else {
        None
    }
}

/// A leftmost occurrence is the value of `first_occurrence`.
pub proof fn lemma_first_occurrence_unique(text: Seq<char>, part: Seq<char>, at: int)
    requires
        is_first_occurrence(text, part, at),
    ensures
        first_occurrence(text, part) == Some(at),
{
    assert(contains_text(text, part));
    let chosen = choose|k: int| is_first_occurrence(text, part, k);
    assert(is_first_occurrence(text, part, chosen));
    if chosen < at {
        assert(!occurs_at(text, part, chosen));
    }
    if at < chosen {
        assert(!occurs_at(text, part, at));
    }
}

/// The characters of `s`, in order.
pub fn chars_of(s: &str) -> (v: Vec<char>)
    ensures
        v@ == s@,
{
    let mut v: Vec<char> = Vec::new();
    for c in it: s.chars()
        invariant
            it.seq() == s@,
            v@ == it.seq().take(it.index()),
    {
        v.push(c);
    }
    v
}

/// The lowercase form of a text, as `str::to_lowercase` computes it.
pub uninterp spec fn lowercased(text: Seq<char>) -> Seq<char>;

/// `str::to_lowercase`: returns the lowercase form of `text`.
#[verifier::external_body]
pub(crate) fn to_lowercase(text: &str) -> (r: String)
    ensures
        r@ == lowercased(text@),
{
    text.to_lowercase()
}

/// Appending one character to a `String` (`String::push`) extends its view by
/// that character.
pub assume_specification[ String::push ](s: &mut String, c: char)
    ensures
        final(s)@ == old(s)@.push(c),
;

/// The string made of the characters `v[from..to]`.
pub fn string_of_range(v: &Vec<char>, from: usize, to: usize) -> (s: String)
    requires
        from <= to <= v.len(),
    ensures
        s@ == v@.subrange(from as int, to as int),
{
    let mut s = String::new();
    let mut i: usize = from;
    while i < to
        invariant
            from <= i <= to <= v.len(),
            s@ == v@.subrange(from as int, i as int),
        decreases to - i,
    {
        s.push(v[i]);
        i += 1;
    }
    s
}

/// The string made of the characters of `v`.
pub fn string_of(v: &Vec<char>) -> (s: String)
    ensures
        s@ == v@,
{
    let s = string_of_range(v, 0, v.len());
    assert(v@.subrange(0, v.len() as int) == v@);
    s
}

/// Whether `part` stands in `text` at index `at`.
pub fn matches_at(text: &Vec<char>, part: &Vec<char>, at: usize) -> (r: bool)
    ensures
        r == occurs_at(text@, part@, at as int),
{
    if part.len() > text.len() || at > text.len() - part.len() {
        return false;
    }
    let mut k: usize = 0;
    while k < part.len()
        invariant
            k <= part.len(),
            at + part.len() <= text.len(),
            forall|j: int| 0 <= j < k ==> text@[at + j] == part@[j],
        decreases part.len() - k,
    {
        if text[at + k] != part[k] {
            assert(text@.subrange(at as int, at + part.len())[k as int] != part@[k as int]);
            return false;
        }
        k += 1;
    }
    assert(text@.subrange(at as int, at + part.len()) =~= part@);
    true
}

/// The leftmost index at which `part` stands in `text`.
pub fn find_in(text: &Vec<char>, part: &Vec<char>) -> (r: Option<usize>)
    ensures
        r matches Some(at) ==> is_first_occurrence(text@, part@, at as int),
        r matches Some(at) ==> first_occurrence(text@, part@) == Some(at as int),
        r matches Some(at) ==> at + part.len() <= text.len(),
        r is None ==> first_occurrence(text@, part@) is None,
{
    if part.len() > text.len() {
        return None;
    }
    let last: usize = text.len() - part.len();
    let mut at: usize = 0;
    loop
        invariant
            at <= last,
            last == text.len() - part.len(),
            forall|earlier: int| 0 <= earlier < at ==> !occurs_at(text@, part@, earlier),
        decreases last - at,
    {
        if matches_at(text, part, at) {
            proof {
                lemma_first_occurrence_unique(text@, part@, at as int);
            }
            return Some(at);
        }
        if at == last {
            return None;
        }
        at += 1;
    }
}

/// Whether `part` stands somewhere in `text`.
pub fn contains(text: &Vec<char>, part: &Vec<char>) -> (r: bool)
    ensures
        r == contains_text(text@, part@),
{
    find_in(text, part).is_some()
}

/// Whether `text` ends with `part`.
pub fn ends_with(text: &Vec<char>, part: &Vec<char>) -> (r: bool)
    ensures
        r == ends_with_text(text@, part@),
{
    if part.len() > text.len() {
        return false;
    }
    matches_at(text, part, text.len() - part.len())
}

/// Whether `text` begins with `part`.
pub fn starts_with(text: &Vec<char>, part: &Vec<char>) -> (r: bool)
    ensures
        r == starts_with_text(text@, part@),
{
    matches_at(text, part, 0)
}

/// Whether two character sequences are equal.
pub fn same_chars(a: &Vec<char>, b: &Vec<char>) -> (r: bool)
    ensures
        r == (a@ == b@),
{
    if a.len() != b.len() {
        return false;
    }
    let mut i: usize = 0;
    while i < a.len()
        invariant
            i <= a.len(),
            a.len() == b.len(),
            forall|j: int| 0 <= j < i ==> a@[j] == b@[j],
        decreases a.len() - i,
    {
        if a[i] != b[i] {
            return false;
        }
        i += 1;
    }
    assert(a@ =~= b@);
    true
}

/// Whether two strings hold the same text.
pub fn same_text(a: &str, b: &str) -> (r: bool)
    ensures
        r == (a@ == b@),
{
    same_chars(&chars_of(a), &chars_of(b))
}

/// `c` is white space: a character with the Unicode property `White_Space`.
pub open spec fn is_space(c: char) -> bool {
    let n: u32 = c as u32;
    ||| 0x09 <= n <= 0x0D
    ||| n == 0x20
    ||| n == 0x85
    ||| n == 0xA0
    ||| n == 0x1680
    ||| 0x2000 <= n <= 0x200A
    ||| n == 0x2028
    ||| n == 0x2029
    ||| n == 0x202F
    ||| n == 0x205F
    ||| n == 0x3000
}

/// What is taken off both ends of a text.
#[derive(Debug, Clone, Copy, PartialEq, Eq, Structural)]
pub enum Strip {
    /// Every white-space character.
    WhiteSpace,
    /// Every occurrence of one character.
    Char(char),
}

/// Whether `c` is taken off.
pub open spec fn strips(what: Strip, c: char) -> bool {
    match what {
        Strip::WhiteSpace => is_space(c),
        Strip::Char(stripped) => c == stripped,
    }
}

/// The number of characters at the start of `line` that are taken off.
pub open spec fn leading_run(line: Seq<char>, what: Strip) -> nat
    decreases line.len(),
{
    if line.len() > 0 && strips(what, line[0]) {
        1 + leading_run(line.skip(1), what)
    } else {
        0
    }
}

/// The number of characters at the end of `line` that are taken off.
pub open spec fn trailing_run(line: Seq<char>, what: Strip) -> nat
    decreases line.len(),
{
    if line.len() > 0 && strips(what, line.last()) {
        1 + trailing_run(line.drop_last(), what)
    } else {
        0
    }
}

/// `line` without the characters to strip at its start and at its end.
pub open spec fn stripped(line: Seq<char>, what: Strip) -> Seq<char> {
    if leading_run(line, what) >= line.len() {
        Seq::empty()
    } else {
        line.subrange(leading_run(line, what) as int, line.len() - trailing_run(line, what))
    }
}

/// The run at the start of a line is made of characters that are taken
/// off, and ends before the first that is not.
pub proof fn lemma_leading_run_ends(line: Seq<char>, what: Strip)
    ensures
        leading_run(line, what) <= line.len(),
        forall|i: int| 0 <= i < leading_run(line, what) ==> strips(what, #[trigger] line[i]),
        leading_run(line, what) < line.len() ==> !strips(
            what,
            line[leading_run(line, what) as int],
        ),
    decreases line.len(),
{
    if line.len() > 0 && strips(what, line[0]) {
        let rest = line.skip(1);
        lemma_leading_run_ends(rest, what);
        assert forall|i: int| 0 <= i < leading_run(line, what) implies strips(
            what,
            #[trigger] line[i],
        ) by {
            if i > 0 {
                assert(line[i] == rest[i - 1]);
            }
        }
        if leading_run(line, what) < line.len() {
            assert(line[leading_run(line, what) as int] == rest[leading_run(rest, what) as int]);
        }
    }
}

/// The run at the end of a line is made of characters that are taken off.
pub proof fn lemma_trailing_run_ends(line: Seq<char>, what: Strip)
    ensures
        trailing_run(line, what) <= line.len(),
        forall|i: int|
            line.len() - trailing_run(line, what) <= i < line.len() ==> strips(
                what,
                #[trigger] line[i],
            ),
    decreases line.len(),
{
    if line.len() > 0 && strips(what, line.last()) {
        let rest = line.drop_last();
        lemma_trailing_run_ends(rest, what);
        assert forall|i: int|
            line.len() - trailing_run(line, what) <= i < line.len() implies strips(
            what,
            #[trigger] line[i],
        ) by {
            if i < line.len() - 1 {
                assert(line[i] == rest[i]);
            }
        }
    }
}

/// Nothing is left of a line exactly when every character of it is taken
/// off.
pub proof fn lemma_stripped_to_nothing(line: Seq<char>, what: Strip)
    ensures
        stripped(line, what).len() == 0 <==> forall|i: int|
            0 <= i < line.len() ==> strips(what, #[trigger] line[i]),
{
    lemma_leading_run_ends(line, what);
    lemma_trailing_run_ends(line, what);
    let first = leading_run(line, what) as int;
    if first < line.len() {
        assert(!strips(what, line[first]));
        assert(first < line.len() - trailing_run(line, what));
    }
}

/// Whether `c` is white space.
pub fn is_whitespace(c: char) -> (r: bool)
    ensures
        r == is_space(c),
{
    let n: u32 = c as u32;
    (0x09 <= n && n <= 0x0D) || n == 0x20 || n == 0x85 || n == 0xA0 || n == 0x1680 || (0x2000 <= n
        && n <= 0x200A) || n == 0x2028 || n == 0x2029 || n == 0x202F || n == 0x205F || n == 0x3000
}

/// Whether `c` is taken off.
fn is_stripped(what: Strip, c: char) -> (r: bool)
    ensures
        r == strips(what, c),
{
    match what {
        Strip::WhiteSpace => is_whitespace(c),
        Strip::Char(stripped) => c == stripped,
    }
}

/// The run at the start of `line` is exactly its first `count` characters.
proof fn lemma_leading_run(line: Seq<char>, what: Strip, count: nat)
    requires
        count <= line.len(),
        forall|i: int| 0 <= i < count ==> strips(what, line[i]),
        count == line.len() || !strips(what, line[count as int]),
    ensures
        leading_run(line, what) == count,
    decreases count,
{
    if count > 0 {
        lemma_leading_run(line.skip(1), what, (count - 1) as nat);
    }
}

/// The run at the end of `line` is exactly its last `count` characters.
proof fn lemma_trailing_run(line: Seq<char>, what: Strip, count: nat)
    requires
        count <= line.len(),
        forall|i: int| line.len() - count <= i < line.len() ==> strips(what, line[i]),
        count == line.len() || !strips(what, line[line.len() - count - 1]),
    ensures
        trailing_run(line, what) == count,
    decreases count,
{
    if count > 0 {
        lemma_trailing_run(line.drop_last(), what, (count - 1) as nat);
    }
}

/// The characters `text[from..to]` without what is to be stripped at both
/// ends.
pub fn strip_range(text: &Vec<char>, from: usize, to: usize, what: Strip) -> (r: String)
    requires
        from <= to <= text.len(),
    ensures
        r@ == stripped(text@.subrange(from as int, to as int), what),
{
    let ghost line = text@.subrange(from as int, to as int);
    let mut first: usize = from;
    while first < to && is_stripped(what, text[first])
        invariant
            from <= first <= to <= text.len(),
            forall|i: int| from <= i < first ==> strips(what, text@[i]),
        decreases to - first,
    {
        first += 1;
    }
    proof {
        lemma_leading_run(line, what, (first - from) as nat);
    }
    if first == to {
        return String::new();
    }
    let mut last: usize = to;
    while last > first && is_stripped(what, text[last - 1])
        invariant
            first <= last <= to <= text.len(),
            forall|i: int| last <= i < to ==> strips(what, text@[i]),
        decreases last,
    {
        last -= 1;
    }
    proof {
        lemma_trailing_run(line, what, (to - last) as nat);
        assert(line.subrange(first - from, line.len() - (to - last)) == text@.subrange(
            first as int,
            last as int,
        ));
    }
    string_of_range(text, first, last)
}

} // verus!
