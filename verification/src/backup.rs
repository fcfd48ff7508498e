//! Backing up the installed files and moving replacements into place.
//!
//! A backup moves every file that the manifest resolves to into a directory
//! named after the installed version and commit. An update then moves the
//! staged files to the same relative places under the root. Both are batches
//! of moves: a file that cannot be moved is noted and the batch goes on; a
//! directory that cannot be made ends it.

use crate::paths::{join_path, joined, parent_dir, parent_of, relative_to, strip_root};
use crate::text::{
    chars_of, contains, contains_text, lowercased, string_of, texts, to_lowercase,
};
use vstd::prelude::*;

verus! {

/// `c` may not stand in a file name: a separator, a drive colon, a wildcard,
/// a quote, a redirection or a pipe.
pub open spec fn is_reserved(c: char) -> bool {
    c == '\\' || c == '/' || c == ':' || c == '*' || c == '?' || c == '"' || c == '<' || c == '>'
        || c == '|'
}

/// `version` with an underscore in place of each reserved character.
pub open spec fn sanitized(version: Seq<char>) -> Seq<char> {
    version.map_values(
        |c: char|
            if is_reserved(c) {
                '_'
            } else {
                c
            },
    )
}

/// The name of the backup directory for a version and a commit.
pub open spec fn backup_name(version: Seq<char>, commit: Seq<char>) -> Seq<char> {
    "backup_"@ + sanitized(version) + "-"@ + commit
}

/// Whether a build identifier names a Linux build.
pub open spec fn names_linux(build: Seq<char>) -> bool {
    contains_text(lowercased(build), "linux"@)
}

/// Where a backup goes and which built-in manifest applies to it.
#[derive(Debug, Clone, PartialEq, Eq)]
pub struct BackupPlan {
    /// The name of the backup directory, directly under the root.
    pub dir_name: String,
    /// Whether the installation has the layout of a Linux build.
    pub is_linux: bool,
}

/// The name of a version with each reserved character replaced.
pub fn sanitize_version(version: &str) -> (r: String)
    ensures
        r@ == sanitized(version@),
{
    let text = chars_of(version);
    let mut clean: Vec<char> = Vec::new();
    let mut i: usize = 0;
    while i < text.len()
        invariant
            i <= text.len(),
            clean@ == sanitized(text@.take(i as int)),
        decreases text.len() - i,
    {
        let c = text[i];
        let reserved = c == '\\' || c == '/' || c == ':' || c == '*' || c == '?' || c == '"' || c
            == '<' || c == '>' || c == '|';
        clean.push(
            if reserved {
                '_'
            } else {
                c
            },
        );
        assert(clean@ =~= sanitized(text@.take(i + 1)));
        i += 1;
    }
    assert(text@.take(i as int) == text@);
    string_of(&clean)
}

/// The name of the backup directory for a version and a commit:
/// `backup_`, the sanitized version, a hyphen, the commit.
pub fn backup_dir_name(prism_version: &str, prism_git_commit: &str) -> (r: String)
    ensures
        r@ == backup_name(prism_version@, prism_git_commit@),
{
    let mut name = chars_of("backup_");
    let mut version = chars_of(sanitize_version(prism_version).as_str());
    let mut hyphen = chars_of("-");
    let mut commit = chars_of(prism_git_commit);
    name.append(&mut version);
    name.append(&mut hyphen);
    name.append(&mut commit);
    string_of(&name)
}

/// Whether a build identifier names a Linux build: its lowercase form
/// contains `linux`.
pub fn is_linux_build(build_artifact: &str) -> (r: bool)
    ensures
        r == names_linux(build_artifact@),
{
    let lowered = to_lowercase(build_artifact);
    contains(&chars_of(lowered.as_str()), &chars_of("linux"))
}

/// Plans the backup of the installed application: the directory that takes
/// the files, named after the installed version and commit, and the layout
/// that the build identifier stands for.
pub fn backup_app_dir(
    prism_version: &str,
    prism_git_commit: &str,
    build_artifact: &str,
) -> (r: BackupPlan)
    ensures
        r.dir_name@ == backup_name(prism_version@, prism_git_commit@),
        r.is_linux == names_linux(build_artifact@),
{
    BackupPlan {
        dir_name: backup_dir_name(prism_version, prism_git_commit),
        is_linux: is_linux_build(build_artifact),
    }
}

/// A sanitized version holds no reserved character and is as long as the
/// version; sanitizing it once more changes nothing.
pub proof fn lemma_sanitized_is_clean(version: Seq<char>)
    ensures
        forall|i: int| 0 <= i < sanitized(version).len() ==> !is_reserved(sanitized(version)[i]),
        sanitized(version).len() == version.len(),
        sanitized(sanitized(version)) == sanitized(version),
{
    assert(sanitized(sanitized(version)) =~= sanitized(version));
}

/// Why a batch of moves ended early.
#[derive(Debug, Clone, Copy, PartialEq, Eq, Structural)]
pub enum MoveError {
    /// A directory that is to take files could not be made.
    DirectoryCreateFailed,
    /// A listed file could not be resolved to its absolute path.
    ResolveFailed,
    /// A listed file does not lie under the source root.
    OutsideRoot,
    /// A report came that answers no command.
    OutOfTurn,
}

/// A file that could not be moved.
#[derive(Debug, Clone, PartialEq, Eq)]
pub struct FileMoveFailed {
    pub from: String,
    pub to: String,
}

/// What the caller reports after carrying out a command.
#[derive(Debug, Clone, PartialEq, Eq)]
pub enum MoveEvent {
    /// The commanded directory exists now.
    DirReady,
    /// The commanded directory could not be made.
    DirFailed,
    /// The listed file has the absolute path `path`.
    Resolved { path: String },
    /// The listed file could not be resolved.
    ResolveFailed,
    /// The file, or the directory with all it holds, was copied to its new
    /// place and removed from the old one.
    Moved,
    /// It could not be copied or removed.
    MoveFailed,
}

/// What the caller is to do next.
#[derive(Debug, Clone, PartialEq, Eq)]
pub enum MoveCommand {
    /// Make the directory `dir` with all its parents unless it exists.
    CreateDir { dir: String },
    /// Report the absolute path of the listed file `path`.
    Resolve { path: String },
    /// Copy `from`, a file or a directory with all it holds, to `to` and
    /// remove `from`.
    MoveFile { from: String, to: String },
    /// The batch is over; the batch holds the files that could not be moved.
    Done,
    /// The batch ended early.
    Failed { error: MoveError },
}

/// Where a batch stands.
#[derive(Debug, Clone, PartialEq, Eq)]
pub enum MovePhase {
    /// The destination is being made.
    Preparing,
    /// The next listed file is being resolved.
    Resolving,
    /// The directory for `to` is being made.
    Creating { from: String, to: String },
    /// The file is being moved.
    Moving { from: String, to: String },
    /// Nothing more is to be done.
    Over,
}

/// A batch of moves in progress.
#[derive(Debug, PartialEq, Eq)]
pub struct MoveBatch {
    /// The files to move, as the manifest resolved them.
    files: Vec<String>,
    /// How many of them are dealt with.
    next: usize,
    /// The absolute path of the directory that the files come from.
    root: String,
    /// The absolute path of the directory that takes them.
    destination: String,
    separator: char,
    phase: MovePhase,
    failures: Vec<FileMoveFailed>,
}

/// What a `MoveEvent` holds.
pub ghost enum MoveEventModel {
    DirReady,
    DirFailed,
    Resolved { path: Seq<char> },
    ResolveFailed,
    Moved,
    MoveFailed,
}

/// What a `MoveCommand` holds; a failed move is the pair of its two paths.
pub ghost enum MoveCommandModel {
    CreateDir { dir: Seq<char> },
    Resolve { path: Seq<char> },
    MoveFile { from: Seq<char>, to: Seq<char> },
    Done,
    Failed { error: MoveError },
}

/// What a `MovePhase` holds.
pub ghost enum MovePhaseModel {
    Preparing,
    Resolving,
    Creating { from: Seq<char>, to: Seq<char> },
    Moving { from: Seq<char>, to: Seq<char> },
    Over,
}

/// What a `MoveBatch` holds.
pub ghost struct MoveBatchModel {
    pub files: Seq<Seq<char>>,
    pub next: nat,
    pub root: Seq<char>,
    pub destination: Seq<char>,
    pub separator: char,
    pub phase: MovePhaseModel,
    pub failures: Seq<(Seq<char>, Seq<char>)>,
}

/// The pairs of paths of a list of failed moves.
pub open spec fn failed_pairs(failures: Seq<FileMoveFailed>) -> Seq<(Seq<char>, Seq<char>)> {
    failures.map_values(|failure: FileMoveFailed| (failure.from@, failure.to@))
}

impl View for MoveEvent {
    type V = MoveEventModel;

    open spec fn view(&self) -> MoveEventModel {
        match *self {
            MoveEvent::DirReady => MoveEventModel::DirReady,
            MoveEvent::DirFailed => MoveEventModel::DirFailed,
            MoveEvent::Resolved { path } => MoveEventModel::Resolved { path: path@ },
            MoveEvent::ResolveFailed => MoveEventModel::ResolveFailed,
            MoveEvent::Moved => MoveEventModel::Moved,
            MoveEvent::MoveFailed => MoveEventModel::MoveFailed,
        }
    }
}

impl View for MoveCommand {
    type V = MoveCommandModel;

    open spec fn view(&self) -> MoveCommandModel {
        match *self {
            MoveCommand::CreateDir { dir } => MoveCommandModel::CreateDir { dir: dir@ },
            MoveCommand::Resolve { path } => MoveCommandModel::Resolve { path: path@ },
            MoveCommand::MoveFile { from, to } => MoveCommandModel::MoveFile {
                from: from@,
                to: to@,
            },
            MoveCommand::Done => MoveCommandModel::Done,
            MoveCommand::Failed { error } => MoveCommandModel::Failed { error },
        }
    }
}

impl View for MovePhase {
    type V = MovePhaseModel;

    open spec fn view(&self) -> MovePhaseModel {
        match *self {
            MovePhase::Preparing => MovePhaseModel::Preparing,
            MovePhase::Resolving => MovePhaseModel::Resolving,
            MovePhase::Creating { from, to } => MovePhaseModel::Creating { from: from@, to: to@ },
            MovePhase::Moving { from, to } => MovePhaseModel::Moving { from: from@, to: to@ },
            MovePhase::Over => MovePhaseModel::Over,
        }
    }
}

impl View for MoveBatch {
    type V = MoveBatchModel;

    closed spec fn view(&self) -> MoveBatchModel {
        MoveBatchModel {
            files: texts(self.files@),
            next: self.next as nat,
            root: self.root@,
            destination: self.destination@,
            separator: self.separator,
            phase: self.phase@,
            failures: failed_pairs(self.failures@),
        }
    }
}

/// The batch `state` in another phase.
pub open spec fn in_phase(state: MoveBatchModel, phase: MovePhaseModel) -> MoveBatchModel {
    MoveBatchModel { phase, ..state }
}

/// The batch ends early with `error`.
pub open spec fn abort(state: MoveBatchModel, error: MoveError) -> (
    MoveBatchModel,
    MoveCommandModel,
) {
    (in_phase(state, MovePhaseModel::Over), MoveCommandModel::Failed { error })
}

/// The batch turns to the listed file numbered `next`: it is resolved, and
/// with no file left the batch is done.
pub open spec fn turn_to(state: MoveBatchModel, next: nat) -> (MoveBatchModel, MoveCommandModel) {
    if next < state.files.len() {
        (
            MoveBatchModel { next, phase: MovePhaseModel::Resolving, ..state },
            MoveCommandModel::Resolve { path: state.files[next as int] },
        )
    } else {
        (
            MoveBatchModel { next, phase: MovePhaseModel::Over, ..state },
            MoveCommandModel::Done,
        )
    }
}

/// How a batch begins: the destination is made first.
pub open spec fn begin_batch(
    files: Seq<Seq<char>>,
    root: Seq<char>,
    destination: Seq<char>,
    separator: char,
) -> (MoveBatchModel, MoveCommandModel) {
    (
        MoveBatchModel {
            files,
            next: 0,
            root,
            destination,
            separator,
            phase: MovePhaseModel::Preparing,
            failures: Seq::empty(),
        },
        MoveCommandModel::CreateDir { dir: destination },
    )
}

/// How a batch goes on after a report.
///
/// The files are dealt with in their order. Each is resolved, and goes to the
/// place under the destination that it has under the root; the directory of
/// that place is made before the file is moved. A file that cannot be moved
/// is added to the failures and the next file follows. A directory that
/// cannot be made, a file that cannot be resolved or lies outside the root
/// end the batch.
pub open spec fn batch_step(state: MoveBatchModel, event: MoveEventModel) -> (
    MoveBatchModel,
    MoveCommandModel,
) {
    match (state.phase, event) {
        (MovePhaseModel::Preparing, MoveEventModel::DirReady) => turn_to(state, 0),
        (MovePhaseModel::Preparing, MoveEventModel::DirFailed) => abort(
            state,
            MoveError::DirectoryCreateFailed,
        ),
        (MovePhaseModel::Resolving, MoveEventModel::Resolved { path }) => {
            match relative_to(path, state.root, state.separator) {
                Some(relative) => {
                    let to = joined(state.destination, relative, state.separator);
                    (
                        in_phase(state, MovePhaseModel::Creating { from: path, to }),
                        MoveCommandModel::CreateDir { dir: parent_of(to, state.separator) },
                    )
                },
                None => abort(state, MoveError::OutsideRoot),
            }
        },
        (MovePhaseModel::Resolving, MoveEventModel::ResolveFailed) => abort(
            state,
            MoveError::ResolveFailed,
        ),
        (MovePhaseModel::Creating { from, to }, MoveEventModel::DirReady) => (
            in_phase(state, MovePhaseModel::Moving { from, to }),
            MoveCommandModel::MoveFile { from, to },
        ),
        (MovePhaseModel::Creating { .. }, MoveEventModel::DirFailed) => abort(
            state,
            MoveError::DirectoryCreateFailed,
        ),
        (MovePhaseModel::Moving { .. }, MoveEventModel::Moved) => turn_to(state, state.next + 1),
        (MovePhaseModel::Moving { from, to }, MoveEventModel::MoveFailed) => turn_to(
            MoveBatchModel { failures: state.failures.push((from, to)), ..state },
            state.next + 1,
        ),
        _ => abort(state, MoveError::OutOfTurn),
    }
}

/// While a file is dealt with, it is one of the listed files.
pub open spec fn batch_well_formed(state: MoveBatchModel) -> bool {
    &&& state.next <= state.files.len()
    &&& state.failures.len() <= state.next
    &&& state.phase is Preparing ==> state.next == 0
    &&& (state.phase is Resolving || state.phase is Creating || state.phase is Moving)
        ==> state.next < state.files.len()
}

/// A batch begins well formed.
pub proof fn lemma_begin_batch_sound(
    files: Seq<Seq<char>>,
    root: Seq<char>,
    destination: Seq<char>,
    separator: char,
)
    ensures
        batch_well_formed(begin_batch(files, root, destination, separator).0),
{
}

/// Every step keeps a batch well formed, leaves its files, root and
/// destination as they are, and never forgets a failure.
pub proof fn lemma_batch_step_sound(state: MoveBatchModel, event: MoveEventModel)
    requires
        batch_well_formed(state),
    ensures
        batch_well_formed(batch_step(state, event).0),
        batch_step(state, event).0.files == state.files,
        batch_step(state, event).0.root == state.root,
        batch_step(state, event).0.destination == state.destination,
        state.failures.is_prefix_of(batch_step(state, event).0.failures),
        state.next <= batch_step(state, event).0.next <= state.next + 1,
{
}

/// A file that cannot be moved never ends the batch: the next file follows,
/// or the batch is done, and the failure is reported last.
pub proof fn lemma_failed_move_goes_on(state: MoveBatchModel)
    requires
        state.phase is Moving,
    ensures
        !(batch_step(state, MoveEventModel::MoveFailed).1 is Failed),
        batch_step(state, MoveEventModel::MoveFailed).0.failures == state.failures.push(
            (state.phase->Moving_from, state.phase->Moving_to),
        ),
        batch_step(state, MoveEventModel::MoveFailed).0.next == state.next + 1,
{
}

/// A directory that cannot be made always ends the batch.
pub proof fn lemma_failed_directory_ends(state: MoveBatchModel)
    requires
        state.phase is Preparing || state.phase is Creating,
    ensures
        batch_step(state, MoveEventModel::DirFailed) == abort(
            state,
            MoveError::DirectoryCreateFailed,
        ),
{
}

/// A file is moved to the place under the destination that it has under the
/// root.
pub proof fn lemma_place_is_kept(state: MoveBatchModel, path: Seq<char>)
    requires
        state.phase is Resolving,
        batch_step(state, MoveEventModel::Resolved { path }).0.phase is Creating,
    ensures
        relative_to(path, state.root, state.separator) is Some,
        batch_step(state, MoveEventModel::Resolved { path }).0.phase->Creating_from == path,
        batch_step(state, MoveEventModel::Resolved { path }).0.phase->Creating_to == joined(
            state.destination,
            relative_to(path, state.root, state.separator).unwrap(),
            state.separator,
        ),
{
}

/// The commands that a sequence of reports draws from a batch, and the
/// state that it is left in.
pub open spec fn run_batch(state: MoveBatchModel, events: Seq<MoveEventModel>) -> (
    MoveBatchModel,
    Seq<MoveCommandModel>,
)
    decreases events.len(),
{
    if events.len() == 0 {
        (state, Seq::empty())
    } else {
        let (next, command) = batch_step(state, events[0]);
        let (last, commands) = run_batch(next, events.skip(1));
        (last, seq![command] + commands)
    }
}

/// The place under the destination of `state` for the file resolved to
/// `path`.
pub open spec fn place_of(state: MoveBatchModel, path: Seq<char>) -> Seq<char> {
    joined(
        state.destination,
        relative_to(path, state.root, state.separator).unwrap(),
        state.separator,
    )
}

/// The reports of a file that is resolved to `path`, whose directory is made
/// and which is then moved or not.
pub open spec fn file_reports(path: Seq<char>, moved: bool) -> Seq<MoveEventModel> {
    seq![
        MoveEventModel::Resolved { path },
        MoveEventModel::DirReady,
        if moved {
            MoveEventModel::Moved
        } else {
            MoveEventModel::MoveFailed
        },
    ]
}

/// The reports of files that are resolved to `paths` one after the other,
/// each moved or not as `moved` says.
pub open spec fn files_reports(paths: Seq<Seq<char>>, moved: Seq<bool>) -> Seq<MoveEventModel>
    decreases paths.len(),
{
    if paths.len() == 0 {
        Seq::empty()
    } else {
        file_reports(paths[0], moved[0]) + files_reports(paths.skip(1), moved.skip(1))
    }
}

/// The failures among the files resolved to `paths`: each file that was not
/// moved, with the place it was meant for, in order.
pub open spec fn failures_among(
    state: MoveBatchModel,
    paths: Seq<Seq<char>>,
    moved: Seq<bool>,
) -> Seq<(Seq<char>, Seq<char>)>
    decreases paths.len(),
{
    if paths.len() == 0 {
        Seq::empty()
    } else {
        let rest = failures_among(state, paths.skip(1), moved.skip(1));
        if moved[0] {
            rest
        } else {
            seq![(paths[0], place_of(state, paths[0]))] + rest
        }
    }
}

/// Running a batch through one sequence of reports and then another is
/// running it through both.
pub proof fn lemma_run_batch_in_parts(
    state: MoveBatchModel,
    first: Seq<MoveEventModel>,
    second: Seq<MoveEventModel>,
)
    ensures
        run_batch(state, first + second).0 == run_batch(run_batch(state, first).0, second).0,
        run_batch(state, first + second).1 == run_batch(state, first).1 + run_batch(
            run_batch(state, first).0,
            second,
        ).1,
    decreases first.len(),
{
    if first.len() == 0 {
        assert(first + second == second);
        assert(Seq::<MoveCommandModel>::empty() + run_batch(state, second).1 == run_batch(
            state,
            second,
        ).1);
    } else {
        let whole = first + second;
        let next = batch_step(state, first[0]).0;
        assert(whole[0] == first[0]);
        assert(whole.skip(1) == first.skip(1) + second);
        lemma_run_batch_in_parts(next, first.skip(1), second);
        let head = seq![batch_step(state, first[0]).1];
        let middle = run_batch(next, first.skip(1)).1;
        let tail = run_batch(run_batch(state, first).0, second).1;
        assert(head + (middle + tail) == (head + middle) + tail);
    }
}

/// A listed file that lies under the root has its directory made and is
/// then sent to the place under the destination that it has under the root.
/// Whether or not it can be moved, the next file follows or the batch is
/// done; a file that could not be moved is the last of the failures.
pub proof fn lemma_file_goes_to_its_place(state: MoveBatchModel, path: Seq<char>, moved: bool)
    requires
        batch_well_formed(state),
        state.phase is Resolving,
        relative_to(path, state.root, state.separator) is Some,
    ensures
        run_batch(state, file_reports(path, moved)).1 == seq![
            MoveCommandModel::CreateDir {
                dir: parent_of(place_of(state, path), state.separator),
            },
            MoveCommandModel::MoveFile { from: path, to: place_of(state, path) },
            if state.next + 1 < state.files.len() {
                MoveCommandModel::Resolve { path: state.files[state.next as int + 1] }
            } else {
                MoveCommandModel::Done
            },
        ],
        run_batch(state, file_reports(path, moved)).0 == (MoveBatchModel {
            next: state.next + 1,
            phase: if state.next + 1 < state.files.len() {
                MovePhaseModel::Resolving
            } else {
                MovePhaseModel::Over
            },
            failures: if moved {
                state.failures
            } else {
                state.failures.push((path, place_of(state, path)))
            },
            ..state
        }),
{
    let events = file_reports(path, moved);
    let (first, made) = batch_step(state, events[0]);
    let (second, sent) = batch_step(first, events[1]);
    let (third, then) = batch_step(second, events[2]);
    assert(events.skip(1)[0] == events[1]);
    assert(events.skip(1).skip(1)[0] == events[2]);
    assert(events.skip(1).skip(1).skip(1) == Seq::<MoveEventModel>::empty());
    assert(run_batch(third, events.skip(1).skip(1).skip(1)).1 == Seq::<
        MoveCommandModel,
    >::empty());
    assert(run_batch(second, events.skip(1).skip(1)).1 == seq![then]);
    assert(run_batch(first, events.skip(1)).1 == seq![sent, then]);
    assert(run_batch(state, events).1 == seq![made, sent, then]);
}

/// A batch whose listed files all lie under the root deals with every one of
/// them, whatever fails to move: it ends done, and its failures are exactly
/// the files that could not be moved, each with the place it was meant for.
pub proof fn lemma_batch_deals_with_every_file(
    state: MoveBatchModel,
    paths: Seq<Seq<char>>,
    moved: Seq<bool>,
)
    requires
        batch_well_formed(state),
        state.phase is Resolving,
        paths.len() == state.files.len() - state.next,
        moved.len() == paths.len(),
        forall|i: int|
            0 <= i < paths.len() ==> relative_to(
                #[trigger] paths[i],
                state.root,
                state.separator,
            ) is Some,
    ensures
        run_batch(state, files_reports(paths, moved)).0.phase is Over,
        run_batch(state, files_reports(paths, moved)).0.next == state.files.len(),
        run_batch(state, files_reports(paths, moved)).0.failures == state.failures
            + failures_among(state, paths, moved),
        run_batch(state, files_reports(paths, moved)).1.last() == MoveCommandModel::Done,
    decreases paths.len(),
{
    let first = file_reports(paths[0], moved[0]);
    let rest = files_reports(paths.skip(1), moved.skip(1));
    let after = run_batch(state, first).0;
    assert(relative_to(paths[0], state.root, state.separator) is Some);
    lemma_file_goes_to_its_place(state, paths[0], moved[0]);
    lemma_run_batch_in_parts(state, first, rest);
    if paths.len() == 1 {
        assert(paths.skip(1).len() == 0);
        assert(rest == Seq::<MoveEventModel>::empty());
        assert(failures_among(state, paths.skip(1), moved.skip(1)) == Seq::<
            (Seq<char>, Seq<char>),
        >::empty());
        assert(state.failures + failures_among(state, paths, moved) == after.failures);
    } else {
        assert forall|i: int| 0 <= i < paths.skip(1).len() implies relative_to(
            #[trigger] paths.skip(1)[i],
            after.root,
            after.separator,
        ) is Some by {
            assert(paths.skip(1)[i] == paths[i + 1]);
        }
        lemma_batch_deals_with_every_file(after, paths.skip(1), moved.skip(1));
        lemma_failures_keep_their_places(state, after, paths.skip(1), moved.skip(1));
        let later = failures_among(state, paths.skip(1), moved.skip(1));
        if !moved[0] {
            let own = seq![(paths[0], place_of(state, paths[0]))];
            assert(state.failures.push((paths[0], place_of(state, paths[0]))) + later
                == state.failures + (own + later));
        }
    }
}

/// The places of failed moves depend on the root and destination of a batch
/// alone.
proof fn lemma_failures_keep_their_places(
    state: MoveBatchModel,
    other: MoveBatchModel,
    paths: Seq<Seq<char>>,
    moved: Seq<bool>,
)
    requires
        state.root == other.root,
        state.destination == other.destination,
        state.separator == other.separator,
    ensures
        failures_among(state, paths, moved) == failures_among(other, paths, moved),
    decreases paths.len(),
{
    if paths.len() > 0 {
        lemma_failures_keep_their_places(state, other, paths.skip(1), moved.skip(1));
    }
}

/// Versions that need no sanitizing and commits without a hyphen give
/// different backup directories unless both the version and the commit are
/// the same: a backup is never mixed with that of another build.
pub proof fn lemma_backup_names_differ(
    version: Seq<char>,
    commit: Seq<char>,
    other_version: Seq<char>,
    other_commit: Seq<char>,
)
    requires
        sanitized(version) == version,
        sanitized(other_version) == other_version,
        !commit.contains('-'),
        !other_commit.contains('-'),
        version != other_version || commit != other_commit,
    ensures
        backup_name(version, commit) != backup_name(other_version, other_commit),
{
    reveal_strlit("-");
    let head = "backup_"@;
    let name = backup_name(version, commit);
    let other = backup_name(other_version, other_commit);
    if name == other {
        let split = (head.len() + version.len()) as int;
        let other_split = (head.len() + other_version.len()) as int;
        assert("-"@.len() == 1 && "-"@[0] == '-');
        assert(name.len() == split + 1 + commit.len());
        assert(other.len() == other_split + 1 + other_commit.len());
        assert(other[other_split] == '-');
        assert(name[split] == '-');
        if split < other_split {
            assert(name[other_split] == commit[other_split - split - 1]);
            assert(commit.contains('-'));
        } else if other_split < split {
            assert(other[split] == other_commit[split - other_split - 1]);
            assert(other_commit.contains('-'));
        } else {
            assert(version == name.subrange(head.len() as int, split));
            assert(other_version == other.subrange(head.len() as int, split));
            assert(commit == name.skip(split + 1));
            assert(other_commit == other.skip(split + 1));
        }
    }
}

impl MoveBatch {
    /// A batch is always well formed.
    #[verifier::type_invariant]
    spec fn sound(&self) -> bool {
        batch_well_formed(self@)
    }

    /// Begins moving the listed `files` from under `root` to the same
    /// relative places under `destination`. Both are absolute paths.
    pub fn begin(files: Vec<String>, root: &str, destination: &str, separator: char) -> (r: (
        MoveBatch,
        MoveCommand,
    ))
        ensures
            (r.0@, r.1@) == begin_batch(texts(files@), root@, destination@, separator),
    {
        let state = MoveBatch {
            files,
            next: 0,
            root: root.to_owned(),
            destination: destination.to_owned(),
            separator,
            phase: MovePhase::Preparing,
            failures: Vec::new(),
        };
        assert(failed_pairs(state.failures@) == Seq::<(Seq<char>, Seq<char>)>::empty());
        (state, MoveCommand::CreateDir { dir: destination.to_owned() })
    }

    /// The files that could not be moved so far, in the order in which they
    /// were tried.
    pub fn failures(&self) -> (r: &Vec<FileMoveFailed>)
        ensures
            failed_pairs(r@) == self@.failures,
    {
        &self.failures
    }

    /// Whether the batch is over.
    pub fn is_over(&self) -> (r: bool)
        ensures
            r == (self@.phase is Over),
    {
        match self.phase {
            MovePhase::Over => true,
            _ => false,
        }
    }

    /// Takes the caller's report and says what to do next.
    pub fn advance(self, event: MoveEvent) -> (r: (MoveBatch, MoveCommand))
        ensures
            (r.0@, r.1@) == batch_step(self@, event@),
    {
        proof {
            use_type_invariant(&self);
            lemma_batch_step_sound(self@, event@);
        }
        let MoveBatch { files, next, root, destination, separator, phase, failures } = self;
        assert(texts(files@).len() == files.len());
        assert(failed_pairs(failures@).len() == failures.len());
        match (phase, event) {
            (MovePhase::Preparing, MoveEvent::DirReady) => {
                MoveBatch::turned_to(files, 0, root, destination, separator, failures)
            },
            (MovePhase::Preparing, MoveEvent::DirFailed) => (
                MoveBatch {
                    files,
                    next,
                    root,
                    destination,
                    separator,
                    phase: MovePhase::Over,
                    failures,
                },
                MoveCommand::Failed { error: MoveError::DirectoryCreateFailed },
            ),
            (MovePhase::Resolving, MoveEvent::Resolved { path }) => {
                match strip_root(path.as_str(), root.as_str(), separator) {
                    Some(relative) => {
                        let to = join_path(destination.as_str(), relative.as_str(), separator);
                        let dir = parent_dir(to.as_str(), separator);
                        (
                            MoveBatch {
                                files,
                                next,
                                root,
                                destination,
                                separator,
                                phase: MovePhase::Creating { from: path, to },
                                failures,
                            },
                            MoveCommand::CreateDir { dir },
                        )
                    },
                    None => (
                        MoveBatch {
                            files,
                            next,
                            root,
                            destination,
                            separator,
                            phase: MovePhase::Over,
                            failures,
                        },
                        MoveCommand::Failed { error: MoveError::OutsideRoot },
                    ),
                }
            },
            (MovePhase::Resolving, MoveEvent::ResolveFailed) => (
                MoveBatch {
                    files,
                    next,
                    root,
                    destination,
                    separator,
                    phase: MovePhase::Over,
                    failures,
                },
                MoveCommand::Failed { error: MoveError::ResolveFailed },
            ),
            (MovePhase::Creating { from, to }, MoveEvent::DirReady) => {
                let command = MoveCommand::MoveFile { from: from.clone(), to: to.clone() };
                (
                    MoveBatch {
                        files,
                        next,
                        root,
                        destination,
                        separator,
                        phase: MovePhase::Moving { from, to },
                        failures,
                    },
                    command,
                )
            },
            (MovePhase::Creating { .. }, MoveEvent::DirFailed) => (
                MoveBatch {
                    files,
                    next,
                    root,
                    destination,
                    separator,
                    phase: MovePhase::Over,
                    failures,
                },
                MoveCommand::Failed { error: MoveError::DirectoryCreateFailed },
            ),
            (MovePhase::Moving { .. }, MoveEvent::Moved) => {
                MoveBatch::turned_to(files, next + 1, root, destination, separator, failures)
            },
            (MovePhase::Moving { from, to }, MoveEvent::MoveFailed) => {
                let mut failures = failures;
                let ghost before = failed_pairs(failures@);
                failures.push(FileMoveFailed { from, to });
                assert(failed_pairs(failures@) == before.push((from@, to@)));
                MoveBatch::turned_to(files, next + 1, root, destination, separator, failures)
            },
            _ => (
                MoveBatch {
                    files,
                    next,
                    root,
                    destination,
                    separator,
                    phase: MovePhase::Over,
                    failures,
                },
                MoveCommand::Failed { error: MoveError::OutOfTurn },
            ),
        }
    }

    /// The state and command when the batch turns to the file numbered
    /// `next`.
    fn turned_to(
        files: Vec<String>,
        next: usize,
        root: String,
        destination: String,
        separator: char,
        failures: Vec<FileMoveFailed>,
    ) -> (r: (MoveBatch, MoveCommand))
        requires
            next <= files.len(),
            failures.len() <= next,
        ensures
            (r.0@, r.1@) == turn_to(
                MoveBatchModel {
                    files: texts(files@),
                    next: 0,
                    root: root@,
                    destination: destination@,
                    separator,
                    phase: MovePhaseModel::Over,
                    failures: failed_pairs(failures@),
                },
                next as nat,
            ),
    {
        if next < files.len() {
            let path = files[next].clone();
            assert(texts(files@)[next as int] == path@);
            (
                MoveBatch {
                    files,
                    next,
                    root,
                    destination,
                    separator,
                    phase: MovePhase::Resolving,
                    failures,
                },
                MoveCommand::Resolve { path },
            )
        } else {
            (
                MoveBatch {
                    files,
                    next,
                    root,
                    destination,
                    separator,
                    phase: MovePhase::Over,
                    failures,
                },
                MoveCommand::Done,
            )
        }
    }
}

} // verus!
