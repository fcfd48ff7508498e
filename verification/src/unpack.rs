//! Unpacking a downloaded archive layer by layer.
//!
//! Reading archives and touching the file system is the caller's work. What
//! is decided here: which kind of archive a file name stands for, under which
//! free name it is unpacked, whether the unpacked directory wraps one more
//! archive, and which directory is handed out in the end.

use crate::number::{decimal_digits, decimal_text, decimal_value, lemma_decimal_text_value};
use crate::text::{
    chars_of, ends_with, ends_with_text, same_chars, string_of, string_of_range, texts,
};
use vstd::prelude::*;

verus! {

/// How many archives may lie one inside the other by default.
pub const LAYER_LIMIT: usize = 64;

/// The kind of archive that a file name stands for.
#[derive(Debug, Clone, Copy, PartialEq, Eq, Structural)]
pub enum ArchiveType {
    /// A zip archive: the name ends in `.zip`.
    Zip,
    /// A gzip-compressed tar archive: the name ends in `.tar.gz`.
    TarGz,
    /// No archive that can be unpacked.
    Unknown,
}

/// The name without its archive suffix, and the kind of archive: `.tar.gz`
/// is looked for before `.zip`; a name with neither suffix gives the empty
/// text and no archive.
pub open spec fn archive_type_of(file_name: Seq<char>) -> (Seq<char>, ArchiveType) {
    if ends_with_text(file_name, ".tar.gz"@) {
        (file_name.take(file_name.len() - ".tar.gz"@.len()), ArchiveType::TarGz)
    } else if ends_with_text(file_name, ".zip"@) {
        (file_name.take(file_name.len() - ".zip"@.len()), ArchiveType::Zip)
    } else {
        (Seq::empty(), ArchiveType::Unknown)
    }
}

/// Classifies a file by the suffix of its name and strips that suffix.
pub fn get_archive_type(file_name: &str) -> (r: (String, ArchiveType))
    ensures
        (r.0@, r.1) == archive_type_of(file_name@),
{
    let name = chars_of(file_name);
    let tar_gz = chars_of(".tar.gz");
    if ends_with(&name, &tar_gz) {
        return (string_of_range(&name, 0, name.len() - tar_gz.len()), ArchiveType::TarGz);
    }
    let zip = chars_of(".zip");
    if ends_with(&name, &zip) {
        return (string_of_range(&name, 0, name.len() - zip.len()), ArchiveType::Zip);
    }
    (String::new(), ArchiveType::Unknown)
}

/// Whether an entry of a zip archive is a directory: its name ends in a
/// slash. Every other entry is a file.
pub fn is_directory_entry(entry_name: &str) -> (r: bool)
    ensures
        r == ends_with_text(entry_name@, "/"@),
{
    ends_with(&chars_of(entry_name), &chars_of("/"))
}

/// `c` separates the components of an entry's name.
pub open spec fn is_entry_separator(c: char) -> bool {
    c == '/' || c == '\\'
}

/// The component `..` stands in `name` at index `at`.
pub open spec fn parent_at(name: Seq<char>, at: int) -> bool {
    &&& 0 <= at
    &&& at + 2 <= name.len()
    &&& name[at] == '.'
    &&& name[at + 1] == '.'
    &&& (at == 0 || is_entry_separator(name[at - 1]))
    &&& (at + 2 == name.len() || is_entry_separator(name[at + 2]))
}

/// An entry named `name` is unpacked inside the directory it is unpacked
/// into: the name does not begin with a separator or a drive letter, and
/// none of its components is `..`.
pub open spec fn stays_inside(name: Seq<char>) -> bool {
    &&& !(name.len() > 0 && is_entry_separator(name[0]))
    &&& !(name.len() > 1 && name[1] == ':')
    &&& forall|at: int| !parent_at(name, at)
}

/// Whether an entry of an archive may be unpacked under its name: whether
/// it then lies inside the directory that the archive is unpacked into.
pub fn entry_stays_inside(entry_name: &str) -> (r: bool)
    ensures
        r == stays_inside(entry_name@),
{
    let name = chars_of(entry_name);
    if name.len() > 0 && (name[0] == '/' || name[0] == '\\') {
        return false;
    }
    if name.len() > 1 && name[1] == ':' {
        return false;
    }
    if name.len() < 2 {
        return true;
    }
    let last: usize = name.len() - 2;
    let mut at: usize = 0;
    loop
        invariant
            at <= last,
            last == name.len() - 2,
            name@ == entry_name@,
            !is_entry_separator(name@[0]),
            name@[1] != ':',
            forall|earlier: int| 0 <= earlier < at ==> !parent_at(name@, earlier),
        decreases last - at,
    {
        let dots = name[at] == '.' && name[at + 1] == '.';
        let opens = at == 0 || name[at - 1] == '/' || name[at - 1] == '\\';
        let closes = at == last || name[at + 2] == '/' || name[at + 2] == '\\';
        if dots && opens && closes {
            assert(parent_at(name@, at as int));
            return false;
        }
        if at == last {
            return true;
        }
        at += 1;
    }
}

/// The `n`-th name tried for `base`: `base` itself, then `base_1`, `base_2`
/// and so on.
pub open spec fn candidate(base: Seq<char>, n: nat) -> Seq<char> {
    if n == 0 {
        base
    } else {
        base + "_"@ + decimal_text(n)
    }
}

/// A name is free when it is not empty and no entry of `taken` has it.
pub open spec fn is_free(taken: Seq<Seq<char>>, name: Seq<char>) -> bool {
    name.len() > 0 && !taken.contains(name)
}

/// `n` is the first number whose candidate is free.
pub open spec fn is_first_free(base: Seq<char>, taken: Seq<Seq<char>>, n: nat) -> bool {
    &&& is_free(taken, candidate(base, n))
    &&& forall|m: nat| m < n ==> !is_free(taken, candidate(base, m))
}

/// The name under which `base` is unpacked beside the entries `taken`: the
/// first free candidate.
pub open spec fn unique_name(base: Seq<char>, taken: Seq<Seq<char>>) -> Seq<char> {
    candidate(base, choose|n: nat| is_first_free(base, taken, n))
}

/// Candidates with different numbers are different names.
pub proof fn lemma_candidates_differ(base: Seq<char>, m: nat, n: nat)
    requires
        m != n,
    ensures
        candidate(base, m) != candidate(base, n),
{
    reveal_strlit("_");
    lemma_decimal_text_value(m);
    lemma_decimal_text_value(n);
    if m == 0 || n == 0 {
        assert(candidate(base, m).len() != candidate(base, n).len());
    } else {
        let a = candidate(base, m);
        let b = candidate(base, n);
        assert(a.skip(base.len() as int + 1) == decimal_text(m));
        assert(b.skip(base.len() as int + 1) == decimal_text(n));
        if a == b {
            assert(decimal_value(decimal_text(m)) == decimal_value(decimal_text(n)));
        }
    }
}

/// If the candidates numbered `1` to `k` are all taken, `taken` has at least
/// `k` entries.
pub proof fn lemma_taken_candidates_bounded(base: Seq<char>, taken: Seq<Seq<char>>, k: nat)
    requires
        forall|n: nat| 1 <= n <= k ==> taken.contains(#[trigger] candidate(base, n)),
    ensures
        k <= taken.len(),
    decreases k,
{
    if k > 0 {
        let last = candidate(base, k);
        assert(taken.contains(last));
        let at = choose|i: int| 0 <= i < taken.len() && taken[i] == last;
        let rest = taken.remove(at);
        assert forall|n: nat| 1 <= n <= k - 1 implies rest.contains(
            #[trigger] candidate(base, n),
        ) by {
            let name = candidate(base, n);
            assert(taken.contains(name));
            let j = choose|j: int| 0 <= j < taken.len() && taken[j] == name;
            lemma_candidates_differ(base, n, k);
            assert(j != at);
            if j < at {
                assert(rest[j] == name);
            } else {
                assert(rest[j - 1] == name);
            }
        }
        lemma_taken_candidates_bounded(base, rest, (k - 1) as nat);
    }
}

/// The first free number is the one that `unique_name` uses.
pub proof fn lemma_first_free_unique(base: Seq<char>, taken: Seq<Seq<char>>, n: nat)
    requires
        is_first_free(base, taken, n),
    ensures
        unique_name(base, taken) == candidate(base, n),
{
    let chosen = choose|k: nat| is_first_free(base, taken, k);
    assert(is_first_free(base, taken, chosen));
    if chosen < n {
        assert(!is_free(taken, candidate(base, chosen)));
    }
    if n < chosen {
        assert(!is_free(taken, candidate(base, n)));
    }
}

/// Whether an entry of `list` equals `name`.
pub fn holds_name(list: &Vec<String>, name: &Vec<char>) -> (r: bool)
    ensures
        r == texts(list@).contains(name@),
{
    let mut i: usize = 0;
    while i < list.len()
        invariant
            i <= list.len(),
            forall|j: int| 0 <= j < i ==> texts(list@)[j] != name@,
        decreases list.len() - i,
    {
        let entry = chars_of(list[i].as_str());
        assert(texts(list@)[i as int] == entry@);
        if same_chars(&entry, name) {
            return true;
        }
        i += 1;
    }
    false
}

/// The `n`-th candidate for `base`.
fn candidate_name(base: &Vec<char>, n: u128) -> (r: Vec<char>)
    ensures
        r@ == candidate(base@, n as nat),
{
    let mut r = base.clone();
    if n > 0 {
        let mut underscore = chars_of("_");
        let mut digits = decimal_digits(n);
        r.append(&mut underscore);
        r.append(&mut digits);
    }
    r
}

/// The name for unpacking `base` beside the entries `taken` of the
/// destination: `base` itself where it is free, otherwise `base_1`, `base_2`
/// and so on, the first free one. The empty name is never free.
pub fn get_unique_path(base: &str, taken: &Vec<String>) -> (r: String)
    ensures
        r@ == unique_name(base@, texts(taken@)),
        is_free(texts(taken@), r@),
{
    let stem = chars_of(base);
    let ghost names = texts(taken@);
    let mut n: u128 = 0;
    loop
        invariant
            stem@ == base@,
            names == texts(taken@),
            forall|m: nat| m < n ==> !is_free(names, #[trigger] candidate(stem@, m)),
            n <= taken.len() + 1,
        decreases taken.len() + 1 - n,
    {
        let name = candidate_name(&stem, n);
        if name.len() > 0 && !holds_name(taken, &name) {
            proof {
                lemma_first_free_unique(stem@, names, n as nat);
            }
            return string_of(&name);
        }
        proof {
            reveal_strlit("_");
            assert forall|m: nat| 1 <= m <= n implies names.contains(
                #[trigger] candidate(stem@, m),
            ) by {
                assert(!is_free(names, candidate(stem@, m)));
                assert(candidate(stem@, m).len() > 0);
            }
            lemma_taken_candidates_bounded(stem@, names, n as nat);
        }
        n += 1;
    }
}

/// Why an extraction ended without a result.
#[derive(Debug, Clone, Copy, PartialEq, Eq, Structural)]
pub enum ExtractError {
    /// The file to unpack has no suffix of a known archive.
    UnsupportedArchiveType,
    /// The outermost archive could not be unpacked.
    UnpackFailed,
    /// The outermost directory could not be removed.
    RemoveFailed,
    /// A report came that answers no command.
    OutOfTurn,
}

/// What the caller reports after carrying out a command.
#[derive(Debug, Clone, PartialEq, Eq)]
pub enum ExtractEvent {
    /// The archive was unpacked into the commanded directory and then
    /// deleted. `files` names the regular files that lie directly in that
    /// directory, `taken` the entries of the destination.
    Unpacked { files: Vec<String>, taken: Vec<String> },
    /// Unpacking failed, or deleting the archive, or listing the directory.
    UnpackFailed,
    /// The commanded directory was removed.
    Removed,
    /// The commanded directory could not be removed.
    RemoveFailed,
}

/// What the caller is to do next. Directories are named relative to the
/// destination.
#[derive(Debug, Clone, PartialEq, Eq)]
pub enum ExtractCommand {
    /// Unpack the archive `source` of the given kind into the new directory
    /// `target`, delete the archive, and report. The archive lies in the
    /// directory `inside`, or is the file that the extraction began with
    /// where `inside` is `None`.
    Unpack { kind: ArchiveType, inside: Option<String>, source: String, target: String },
    /// Remove the directory `dir` with all it holds, and report.
    Remove { dir: String },
    /// The extraction is over: `path` is the final directory.
    Done { path: String },
    /// The extraction is over without a result.
    Failed { error: ExtractError },
}

/// Where an extraction stands.
#[derive(Debug, Clone, PartialEq, Eq)]
pub enum ExtractPhase {
    /// An archive is being unpacked into `target`.
    Unpacking { target: String },
    /// `result` is the final directory; the first `left` layers are still to
    /// be removed, the innermost of them next.
    Removing { result: String, left: usize },
    /// Nothing more is to be done.
    Over,
}

/// An extraction in progress.
#[derive(Debug, PartialEq, Eq)]
pub struct Extraction {
    /// The directories unpacked so far, outermost first.
    layers: Vec<String>,
    phase: ExtractPhase,
    /// How many layers may be unpacked; the first always is.
    limit: usize,
}

/// What an `ExtractEvent` holds.
pub ghost enum EventModel {
    Unpacked { files: Seq<Seq<char>>, taken: Seq<Seq<char>> },
    UnpackFailed,
    Removed,
    RemoveFailed,
}

/// What an `ExtractCommand` holds.
pub ghost enum CommandModel {
    Unpack { kind: ArchiveType, inside: Option<Seq<char>>, source: Seq<char>, target: Seq<char> },
    Remove { dir: Seq<char> },
    Done { path: Seq<char> },
    Failed { error: ExtractError },
}

/// What an `ExtractPhase` holds.
pub ghost enum PhaseModel {
    Unpacking { target: Seq<char> },
    Removing { result: Seq<char>, left: nat },
    Over,
}

/// What an `Extraction` holds.
pub ghost struct ExtractionModel {
    pub layers: Seq<Seq<char>>,
    pub phase: PhaseModel,
    pub limit: nat,
}

impl View for ExtractEvent {
    type V = EventModel;

    open spec fn view(&self) -> EventModel {
        match *self {
            ExtractEvent::Unpacked { files, taken } => EventModel::Unpacked {
                files: texts(files@),
                taken: texts(taken@),
            },
            ExtractEvent::UnpackFailed => EventModel::UnpackFailed,
            ExtractEvent::Removed => EventModel::Removed,
            ExtractEvent::RemoveFailed => EventModel::RemoveFailed,
        }
    }
}

impl View for ExtractCommand {
    type V = CommandModel;

    open spec fn view(&self) -> CommandModel {
        match *self {
            ExtractCommand::Unpack { kind, inside, source, target } => CommandModel::Unpack {
                kind,
                inside: match inside {
                    Some(dir) => Some(dir@),
                    None => None,
                },
                source: source@,
                target: target@,
            },
            ExtractCommand::Remove { dir } => CommandModel::Remove { dir: dir@ },
            ExtractCommand::Done { path } => CommandModel::Done { path: path@ },
            ExtractCommand::Failed { error } => CommandModel::Failed { error },
        }
    }
}

impl View for ExtractPhase {
    type V = PhaseModel;

    open spec fn view(&self) -> PhaseModel {
        match *self {
            ExtractPhase::Unpacking { target } => PhaseModel::Unpacking { target: target@ },
            ExtractPhase::Removing { result, left } => PhaseModel::Removing {
                result: result@,
                left: left as nat,
            },
            ExtractPhase::Over => PhaseModel::Over,
        }
    }
}

impl View for Extraction {
    type V = ExtractionModel;

    closed spec fn view(&self) -> ExtractionModel {
        ExtractionModel {
            layers: texts(self.layers@),
            phase: self.phase@,
            limit: self.limit as nat,
        }
    }
}

/// The state of an extraction that is over.
pub open spec fn over(layers: Seq<Seq<char>>, limit: nat) -> ExtractionModel {
    ExtractionModel { layers, phase: PhaseModel::Over, limit }
}

/// The state and the command once `result` is known to be the final
/// directory and the first `left` layers are still to be removed: the
/// innermost of them is removed next, and with none left the extraction is
/// done.
pub open spec fn settle(layers: Seq<Seq<char>>, result: Seq<char>, left: nat, limit: nat) -> (
    ExtractionModel,
    CommandModel,
) {
    if left == 0 {
        (over(layers, limit), CommandModel::Done { path: result })
    } else {
        (
            ExtractionModel { layers, phase: PhaseModel::Removing { result, left }, limit },
            CommandModel::Remove { dir: layers[left - 1] },
        )
    }
}

/// How an extraction begins for the file named `file_name` beside the
/// entries `taken` of the destination: a file that is no known archive ends
/// it at once; any other is unpacked into the first free name made from its
/// name without the suffix.
pub open spec fn begin_step(file_name: Seq<char>, taken: Seq<Seq<char>>, limit: nat) -> (
    ExtractionModel,
    CommandModel,
) {
    let (stem, kind) = archive_type_of(file_name);
    if kind == ArchiveType::Unknown {
        (
            over(Seq::empty(), limit),
            CommandModel::Failed { error: ExtractError::UnsupportedArchiveType },
        )
    } else {
        let target = unique_name(stem, taken);
        (
            ExtractionModel {
                layers: Seq::empty(),
                phase: PhaseModel::Unpacking { target },
                limit,
            },
            CommandModel::Unpack { kind, inside: None, source: file_name, target },
        )
    }
}

/// How an extraction goes on after a report.
///
/// A directory that was unpacked becomes the innermost layer. Where it holds
/// exactly one regular file, that file is a known archive and the limit of
/// layers is not reached, the file is unpacked next. Otherwise the directory
/// is final and every layer around it is removed, the innermost first.
///
/// Where unpacking fails, the innermost layer is final; without any layer the
/// extraction fails.
///
/// Where a layer cannot be removed, the layer around it becomes final and is
/// kept, and the layers around that one are removed in turn; where the
/// outermost layer cannot be removed, the extraction fails.
pub open spec fn step(state: ExtractionModel, event: EventModel) -> (
    ExtractionModel,
    CommandModel,
) {
    match (state.phase, event) {
        (PhaseModel::Unpacking { target }, EventModel::Unpacked { files, taken }) => {
            let layers = state.layers.push(target);
            let (stem, kind) = archive_type_of(files[0]);
            if files.len() == 1 && layers.len() < state.limit && kind != ArchiveType::Unknown {
                let next = unique_name(stem, taken);
                (
                    ExtractionModel {
                        layers,
                        phase: PhaseModel::Unpacking { target: next },
                        limit: state.limit,
                    },
                    CommandModel::Unpack {
                        kind,
                        inside: Some(target),
                        source: files[0],
                        target: next,
                    },
                )
            } else {
                settle(layers, target, (layers.len() - 1) as nat, state.limit)
            }
        },
        (PhaseModel::Unpacking { target }, EventModel::UnpackFailed) => {
            if state.layers.len() == 0 {
                (
                    over(state.layers, state.limit),
                    CommandModel::Failed { error: ExtractError::UnpackFailed },
                )
            } else {
                settle(
                    state.layers,
                    state.layers.last(),
                    (state.layers.len() - 1) as nat,
                    state.limit,
                )
            }
        },
        (PhaseModel::Removing { result, left }, EventModel::Removed) => settle(
            state.layers,
            result,
            (left - 1) as nat,
            state.limit,
        ),
        (PhaseModel::Removing { result, left }, EventModel::RemoveFailed) => {
            if left <= 1 {
                (
                    over(state.layers, state.limit),
                    CommandModel::Failed { error: ExtractError::RemoveFailed },
                )
            } else {
                settle(state.layers, state.layers[left - 2], (left - 2) as nat, state.limit)
            }
        },
        _ => (
            over(state.layers, state.limit),
            CommandModel::Failed { error: ExtractError::OutOfTurn },
        ),
    }
}

/// The layers that wait to be removed exist, and the final directory is not
/// among them.
pub open spec fn well_formed(state: ExtractionModel) -> bool {
    state.phase matches PhaseModel::Removing { left, .. } ==> 1 <= left < state.layers.len()
}

/// The number of layers that an extraction with this limit may unpack.
pub open spec fn layer_bound(limit: nat) -> nat {
    if limit == 0 {
        1
    } else {
        limit
    }
}

/// No more layers are unpacked than the limit allows, counting the one that
/// is being unpacked.
pub open spec fn within_limit(state: ExtractionModel) -> bool {
    match state.phase {
        PhaseModel::Unpacking { .. } => state.layers.len() < layer_bound(state.limit),
        _ => state.layers.len() <= layer_bound(state.limit),
    }
}

/// An extraction begins well formed and within its limit.
pub proof fn lemma_begin_sound(file_name: Seq<char>, taken: Seq<Seq<char>>, limit: nat)
    ensures
        well_formed(begin_step(file_name, taken, limit).0),
        within_limit(begin_step(file_name, taken, limit).0),
{
}

/// Every step keeps an extraction well formed and within its limit, so the
/// number of layers never exceeds the limit: the unpacking ends.
pub proof fn lemma_step_sound(state: ExtractionModel, event: EventModel)
    requires
        well_formed(state),
        within_limit(state),
    ensures
        well_formed(step(state, event).0),
        within_limit(step(state, event).0),
        step(state, event).0.limit == state.limit,
{
}

/// The commands that a sequence of reports draws from an extraction, and
/// the state that it is left in.
pub open spec fn run(state: ExtractionModel, events: Seq<EventModel>) -> (
    ExtractionModel,
    Seq<CommandModel>,
)
    decreases events.len(),
{
    if events.len() == 0 {
        (state, Seq::empty())
    } else {
        let (next, command) = step(state, events[0]);
        let (last, commands) = run(next, events.skip(1));
        (last, seq![command] + commands)
    }
}

/// The commands to remove the first `count` layers, the innermost first.
pub open spec fn removals(layers: Seq<Seq<char>>, count: nat) -> Seq<CommandModel> {
    Seq::new(count, |i: int| CommandModel::Remove { dir: layers[count - 1 - i] })
}

/// `count` reports of a removed directory.
pub open spec fn removed_reports(count: nat) -> Seq<EventModel> {
    Seq::new(count, |i: int| EventModel::Removed)
}

/// Once the final directory is known and every removal succeeds, each layer
/// that still waits is removed, from the innermost to the outermost, and then
/// the final directory is handed out.
pub proof fn lemma_wrappers_are_removed(state: ExtractionModel)
    requires
        well_formed(state),
        state.phase is Removing,
    ensures
        run(state, removed_reports(state.phase->left)).1 == removals(
            state.layers,
            (state.phase->left - 1) as nat,
        ).push(CommandModel::Done { path: state.phase->result }),
        run(state, removed_reports(state.phase->left)).0 == over(state.layers, state.limit),
    decreases state.phase->left,
{
    let left = state.phase->left;
    let result = state.phase->result;
    let events = removed_reports(left);
    let (next, command) = step(state, events[0]);
    assert(events.skip(1) == removed_reports((left - 1) as nat));
    if left == 1 {
        assert(run(next, events.skip(1)).1 == Seq::<CommandModel>::empty());
        assert(seq![command] + Seq::<CommandModel>::empty() == removals(state.layers, 0).push(
            CommandModel::Done { path: result },
        ));
    } else {
        lemma_wrappers_are_removed(next);
        let rest = removals(state.layers, (left - 2) as nat).push(
            CommandModel::Done { path: result },
        );
        assert(seq![command] + rest == removals(state.layers, (left - 1) as nat).push(
            CommandModel::Done { path: result },
        ));
    }
}

/// An unpacked directory that wraps no further archive becomes the result:
/// where every removal succeeds, all layers around it are removed, the
/// innermost first, and the directory itself is handed out.
pub proof fn lemma_innermost_is_final(
    state: ExtractionModel,
    files: Seq<Seq<char>>,
    taken: Seq<Seq<char>>,
)
    requires
        well_formed(state),
        state.phase is Unpacking,
        !(step(state, EventModel::Unpacked { files, taken }).1 is Unpack),
    ensures
        run(
            state,
            seq![EventModel::Unpacked { files, taken }] + removed_reports(state.layers.len()),
        ).1 == removals(state.layers, state.layers.len()).push(
            CommandModel::Done { path: state.phase->target },
        ),
{
    let target = state.phase->target;
    let unpacked = EventModel::Unpacked { files, taken };
    let events = seq![unpacked] + removed_reports(state.layers.len());
    let (next, command) = step(state, unpacked);
    let layers = state.layers.push(target);
    assert(events[0] == unpacked);
    assert(events.skip(1) == removed_reports(state.layers.len()));
    if state.layers.len() == 0 {
        assert(run(next, events.skip(1)).1 == Seq::<CommandModel>::empty());
        assert(seq![command] + Seq::<CommandModel>::empty() == removals(state.layers, 0).push(
            CommandModel::Done { path: target },
        ));
    } else {
        lemma_wrappers_are_removed(next);
        let rest = removals(layers, (state.layers.len() - 1) as nat).push(
            CommandModel::Done { path: target },
        );
        assert(seq![command] + rest == removals(state.layers, state.layers.len()).push(
            CommandModel::Done { path: target },
        ));
    }
}

/// A file that is no known archive is refused before anything is touched:
/// the extraction is over at once, and no command to unpack or remove is
/// given.
pub proof fn lemma_unsupported_is_refused(file_name: Seq<char>, taken: Seq<Seq<char>>, limit: nat)
    requires
        archive_type_of(file_name).1 == ArchiveType::Unknown,
    ensures
        begin_step(file_name, taken, limit) == (
            over(Seq::empty(), limit),
            CommandModel::Failed { error: ExtractError::UnsupportedArchiveType },
        ),
{
}

/// The first directory that is unpacked is given a free name.
pub proof fn lemma_first_target_is_free(file_name: Seq<char>, taken: Seq<Seq<char>>, limit: nat)
    requires
        begin_step(file_name, taken, limit).1 is Unpack,
    ensures
        is_free(taken, begin_step(file_name, taken, limit).1->target),
{
    lemma_unique_name_free(archive_type_of(file_name).0, taken);
}

/// Every further directory that is unpacked is given a free name.
pub proof fn lemma_targets_are_free(state: ExtractionModel, event: EventModel)
    requires
        event is Unpacked,
        step(state, event).1 is Unpack,
    ensures
        is_free(event->taken, step(state, event).1->target),
{
    let files = event->files;
    let taken = event->taken;
    let stem = archive_type_of(files[0]).0;
    lemma_unique_name_free(stem, taken);
}

/// The name chosen for `base` is free.
pub proof fn lemma_unique_name_free(base: Seq<char>, taken: Seq<Seq<char>>)
    ensures
        is_free(taken, unique_name(base, taken)),
        exists|n: nat| is_first_free(base, taken, n),
{
    lemma_some_candidate_free(base, taken, 0);
    let n = choose|n: nat| is_first_free(base, taken, n);
    assert(is_first_free(base, taken, n));
}

/// Unless a candidate below `from` is free, some number is the first free
/// one.
proof fn lemma_some_candidate_free(base: Seq<char>, taken: Seq<Seq<char>>, from: nat)
    requires
        forall|m: nat| m < from ==> !is_free(taken, #[trigger] candidate(base, m)),
        from <= taken.len() + 1,
    ensures
        exists|n: nat| is_first_free(base, taken, n),
    decreases taken.len() + 1 - from,
{
    if is_free(taken, candidate(base, from)) {
        assert(is_first_free(base, taken, from));
    } else {
        reveal_strlit("_");
        assert forall|m: nat| 1 <= m <= from implies taken.contains(
            #[trigger] candidate(base, m),
        ) by {
            assert(!is_free(taken, candidate(base, m)));
            assert(candidate(base, m).len() > 0);
        }
        lemma_taken_candidates_bounded(base, taken, from);
        lemma_some_candidate_free(base, taken, from + 1);
    }
}

impl Extraction {
    /// An extraction is always well formed and within its limit.
    #[verifier::type_invariant]
    spec fn sound(&self) -> bool {
        well_formed(self@) && within_limit(self@)
    }

    /// Begins the extraction of the file named `file_name` into a destination
    /// whose entries are `taken`, unpacking at most `limit` layers and at
    /// least one.
    pub fn begin(file_name: &str, taken: &Vec<String>, limit: usize) -> (r: (
        Extraction,
        ExtractCommand,
    ))
        ensures
            (r.0@, r.1@) == begin_step(file_name@, texts(taken@), limit as nat),
    {
        let (stem, kind) = get_archive_type(file_name);
        if kind == ArchiveType::Unknown {
            let state = Extraction { layers: Vec::new(), phase: ExtractPhase::Over, limit };
            assert(texts(state.layers@) == Seq::<Seq<char>>::empty());
            return (
                state,
                ExtractCommand::Failed { error: ExtractError::UnsupportedArchiveType },
            );
        }
        let target = get_unique_path(stem.as_str(), taken);
        let state = Extraction {
            layers: Vec::new(),
            phase: ExtractPhase::Unpacking { target: target.clone() },
            limit,
        };
        assert(texts(state.layers@) == Seq::<Seq<char>>::empty());
        (
            state,
            ExtractCommand::Unpack { kind, inside: None, source: file_name.to_owned(), target },
        )
    }

    /// The directories unpacked so far, outermost first.
    pub fn layers(&self) -> (r: &Vec<String>)
        ensures
            texts(r@) == self@.layers,
    {
        &self.layers
    }

    /// Whether the extraction is over.
    pub fn is_over(&self) -> (r: bool)
        ensures
            r == (self@.phase is Over),
    {
        match self.phase {
            ExtractPhase::Over => true,
            _ => false,
        }
    }

    /// Takes the caller's report and says what to do next.
    pub fn advance(self, event: ExtractEvent) -> (r: (Extraction, ExtractCommand))
        ensures
            (r.0@, r.1@) == step(self@, event@),
    {
        proof {
            use_type_invariant(&self);
            lemma_step_sound(self@, event@);
        }
        let Extraction { layers, phase, limit } = self;
        match (phase, event) {
            (ExtractPhase::Unpacking { target }, ExtractEvent::Unpacked { files, taken }) => {
                let mut layers = layers;
                layers.push(target.clone());
                assert(texts(layers@) == self@.layers.push(target@));
                if files.len() == 1 && layers.len() < limit {
                    assert(texts(files@)[0] == files@[0]@);
                    let (stem, kind) = get_archive_type(files[0].as_str());
                    if kind != ArchiveType::Unknown {
                        let next = get_unique_path(stem.as_str(), &taken);
                        let source = files[0].clone();
                        return (
                            Extraction {
                                layers,
                                phase: ExtractPhase::Unpacking { target: next.clone() },
                                limit,
                            },
                            ExtractCommand::Unpack {
                                kind,
                                inside: Some(target),
                                source,
                                target: next,
                            },
                        );
                    }
                }
                let left: usize = layers.len() - 1;
                Extraction::settled(layers, target, left, limit)
            },
            (ExtractPhase::Unpacking { target }, ExtractEvent::UnpackFailed) => {
                if layers.len() == 0 {
                    (
                        Extraction { layers, phase: ExtractPhase::Over, limit },
                        ExtractCommand::Failed { error: ExtractError::UnpackFailed },
                    )
                } else {
                    let left: usize = layers.len() - 1;
                    let result = layers[left].clone();
                    assert(texts(layers@)[left as int] == result@);
                    Extraction::settled(layers, result, left, limit)
                }
            },
            (ExtractPhase::Removing { result, left }, ExtractEvent::Removed) => {
                Extraction::settled(layers, result, left - 1, limit)
            },
            (ExtractPhase::Removing { result, left }, ExtractEvent::RemoveFailed) => {
                if left <= 1 {
                    (
                        Extraction { layers, phase: ExtractPhase::Over, limit },
                        ExtractCommand::Failed { error: ExtractError::RemoveFailed },
                    )
                } else {
                    let kept = layers[left - 2].clone();
                    assert(texts(layers@)[left - 2] == kept@);
                    Extraction::settled(layers, kept, left - 2, limit)
                }
            },
            _ => (
                Extraction { layers, phase: ExtractPhase::Over, limit },
                ExtractCommand::Failed { error: ExtractError::OutOfTurn },
            ),
        }
    }

    /// The state and command once the final directory is known.
    fn settled(layers: Vec<String>, result: String, left: usize, limit: usize) -> (r: (
        Extraction,
        ExtractCommand,
    ))
        requires
            left < layers.len() <= layer_bound(limit as nat),
        ensures
            (r.0@, r.1@) == settle(texts(layers@), result@, left as nat, limit as nat),
    {
        if left == 0 {
            (
                Extraction { layers, phase: ExtractPhase::Over, limit },
                ExtractCommand::Done { path: result },
            )
        } else {
            let dir = layers[left - 1].clone();
            assert(texts(layers@)[left - 1] == dir@);
            (
                Extraction { layers, phase: ExtractPhase::Removing { result, left }, limit },
                ExtractCommand::Remove { dir },
            )
        }
    }
}

} // verus!
