use dispersion::backup::{
    backup_app_dir, backup_dir_name, is_linux_build, sanitize_version, FileMoveFailed, MoveBatch,
    MoveCommand, MoveError, MoveEvent,
};

fn list(names: &[&str]) -> Vec<String> {
    names.iter().map(|name| name.to_string()).collect()
}

fn create(dir: &str) -> MoveCommand {
    MoveCommand::CreateDir { dir: dir.to_string() }
}

fn resolve(path: &str) -> MoveCommand {
    MoveCommand::Resolve { path: path.to_string() }
}

fn move_file(from: &str, to: &str) -> MoveCommand {
    MoveCommand::MoveFile { from: from.to_string(), to: to.to_string() }
}

fn resolved(path: &str) -> MoveEvent {
    MoveEvent::Resolved { path: path.to_string() }
}

fn failed(error: MoveError) -> MoveCommand {
    MoveCommand::Failed { error }
}

/// Runs a batch in which every step succeeds, but moving the files in
/// `unmovable`, and returns the moves that were commanded.
fn run(
    files: &[&str],
    root: &str,
    destination: &str,
    unmovable: &[&str],
) -> (Vec<(String, String)>, Vec<String>, Vec<FileMoveFailed>) {
    let (mut state, mut command) = MoveBatch::begin(list(files), root, destination, '/');
    let mut moves = Vec::new();
    let mut dirs = Vec::new();
    loop {
        let event = match command {
            MoveCommand::CreateDir { dir } => {
                dirs.push(dir);
                MoveEvent::DirReady
            }
            MoveCommand::Resolve { path } => MoveEvent::Resolved { path },
            MoveCommand::MoveFile { from, to } => {
                let fails = unmovable.contains(&from.as_str());
                moves.push((from, to));
                if fails {
                    MoveEvent::MoveFailed
                } else {
                    MoveEvent::Moved
                }
            }
            MoveCommand::Done => {
                assert!(state.is_over());
                return (moves, dirs, state.failures().clone());
            }
            MoveCommand::Failed { error } => panic!("the batch ended early: {:?}", error),
        };
        let next = state.advance(event);
        state = next.0;
        command = next.1;
    }
}

fn pairs(moves: &[(&str, &str)]) -> Vec<(String, String)> {
    moves.iter().map(|(from, to)| (from.to_string(), to.to_string())).collect()
}

#[test]
fn reserved_characters_become_underscores() {
    assert_eq!(sanitize_version("9.2"), "9.2");
    assert_eq!(sanitize_version("1.2/3:4"), "1.2_3_4");
    assert_eq!(sanitize_version("\\/:*?\"<>|"), "_________");
    assert_eq!(sanitize_version("a b-c_d.e"), "a b-c_d.e");
    assert_eq!(sanitize_version(""), "");
}

#[test]
fn backup_directory_is_named_after_version_and_commit() {
    assert_eq!(backup_dir_name("9.2", "abc123"), "backup_9.2-abc123");
    assert_eq!(backup_dir_name("feature/x:1", "abc123"), "backup_feature_x_1-abc123");
    assert_eq!(backup_dir_name("", ""), "backup_-");
    // only the version is sanitized
    assert_eq!(backup_dir_name("1", "a/b"), "backup_1-a/b");
}

#[test]
fn same_pair_gives_the_same_directory() {
    assert_eq!(backup_dir_name("9.2", "abc"), backup_dir_name("9.2", "abc"));
    assert_ne!(backup_dir_name("9.2", "abc"), backup_dir_name("9.2", "abd"));
    assert_ne!(backup_dir_name("9.2", "abc"), backup_dir_name("9.3", "abc"));
}

#[test]
fn linux_builds_are_told_by_name() {
    assert!(is_linux_build("Linux-Qt6"));
    assert!(is_linux_build("linux"));
    assert!(is_linux_build("x86_64-LINUX-portable"));
    assert!(!is_linux_build("Windows-MSVC-Qt6"));
    assert!(!is_linux_build("macOS"));
    assert!(!is_linux_build(""));
}

#[test]
fn backup_plan_names_directory_and_layout() {
    let plan = backup_app_dir("9.2", "abc123", "Linux-Qt6");
    assert_eq!(plan.dir_name, "backup_9.2-abc123");
    assert!(plan.is_linux);
    let plan = backup_app_dir("9:2", "abc123", "Windows-MSVC");
    assert_eq!(plan.dir_name, "backup_9_2-abc123");
    assert!(!plan.is_linux);
}

#[test]
fn backup_then_update_keeps_relative_places() {
    let (moves, dirs, failures) = run(
        &["/root/a.txt", "/root/dir/b.txt"],
        "/root",
        "/root/backup_1.0-abc",
        &[],
    );
    assert_eq!(
        moves,
        pairs(&[
            ("/root/a.txt", "/root/backup_1.0-abc/a.txt"),
            ("/root/dir/b.txt", "/root/backup_1.0-abc/dir/b.txt"),
        ])
    );
    assert_eq!(
        dirs,
        list(&["/root/backup_1.0-abc", "/root/backup_1.0-abc", "/root/backup_1.0-abc/dir"])
    );
    assert!(failures.is_empty());

    let (moves, dirs, failures) =
        run(&["/stage/app/a.txt", "/stage/app/dir/b.txt"], "/stage/app", "/root", &[]);
    assert_eq!(
        moves,
        pairs(&[
            ("/stage/app/a.txt", "/root/a.txt"),
            ("/stage/app/dir/b.txt", "/root/dir/b.txt"),
        ])
    );
    assert_eq!(dirs, list(&["/root", "/root", "/root/dir"]));
    assert!(failures.is_empty());
}

#[test]
fn batch_commands_come_in_order() {
    let (state, command) = MoveBatch::begin(list(&["a.txt"]), "/root", "/dst", '/');
    assert_eq!(command, create("/dst"));
    let (state, command) = state.advance(MoveEvent::DirReady);
    assert_eq!(command, resolve("a.txt"));
    let (state, command) = state.advance(resolved("/root/a.txt"));
    assert_eq!(command, create("/dst"));
    let (state, command) = state.advance(MoveEvent::DirReady);
    assert_eq!(command, move_file("/root/a.txt", "/dst/a.txt"));
    assert!(!state.is_over());
    let (state, command) = state.advance(MoveEvent::Moved);
    assert_eq!(command, MoveCommand::Done);
    assert!(state.is_over());
    assert!(state.failures().is_empty());
}

#[test]
fn empty_batch_only_makes_the_destination() {
    let (state, command) = MoveBatch::begin(list(&[]), "/root", "/dst", '/');
    assert_eq!(command, create("/dst"));
    let (state, command) = state.advance(MoveEvent::DirReady);
    assert_eq!(command, MoveCommand::Done);
    assert!(state.is_over());
}

#[test]
fn failed_move_is_noted_and_the_batch_goes_on() {
    let (moves, _, failures) = run(
        &["/root/a.txt", "/root/b.txt", "/root/c.txt"],
        "/root",
        "/dst",
        &["/root/a.txt", "/root/c.txt"],
    );
    assert_eq!(moves.len(), 3);
    assert_eq!(
        failures,
        vec![
            FileMoveFailed { from: "/root/a.txt".to_string(), to: "/dst/a.txt".to_string() },
            FileMoveFailed { from: "/root/c.txt".to_string(), to: "/dst/c.txt".to_string() },
        ]
    );
}

#[test]
fn failed_destination_ends_the_batch() {
    let (state, _) = MoveBatch::begin(list(&["/root/a.txt"]), "/root", "/dst", '/');
    let (state, command) = state.advance(MoveEvent::DirFailed);
    assert_eq!(command, failed(MoveError::DirectoryCreateFailed));
    assert!(state.is_over());
}

#[test]
fn failed_parent_directory_ends_the_batch() {
    let (state, _) = MoveBatch::begin(
        list(&["/root/dir/a.txt", "/root/b.txt"]),
        "/root",
        "/dst",
        '/',
    );
    let (state, _) = state.advance(MoveEvent::DirReady);
    let (state, command) = state.advance(resolved("/root/dir/a.txt"));
    assert_eq!(command, create("/dst/dir"));
    let (state, command) = state.advance(MoveEvent::DirFailed);
    assert_eq!(command, failed(MoveError::DirectoryCreateFailed));
    assert!(state.is_over());
    let (_, command) = state.advance(MoveEvent::DirReady);
    assert_eq!(command, failed(MoveError::OutOfTurn));
}

#[test]
fn unresolved_file_ends_the_batch() {
    let (state, _) = MoveBatch::begin(list(&["/root/a.txt"]), "/root", "/dst", '/');
    let (state, _) = state.advance(MoveEvent::DirReady);
    let (state, command) = state.advance(MoveEvent::ResolveFailed);
    assert_eq!(command, failed(MoveError::ResolveFailed));
    assert!(state.is_over());
}

#[test]
fn file_outside_the_root_ends_the_batch() {
    let (state, _) = MoveBatch::begin(list(&["link"]), "/root", "/dst", '/');
    let (state, _) = state.advance(MoveEvent::DirReady);
    let (state, command) = state.advance(resolved("/elsewhere/a.txt"));
    assert_eq!(command, failed(MoveError::OutsideRoot));
    assert!(state.is_over());
}

#[test]
fn reports_out_of_turn_end_the_batch() {
    let (state, _) = MoveBatch::begin(list(&["/root/a.txt"]), "/root", "/dst", '/');
    let (state, command) = state.advance(MoveEvent::Moved);
    assert_eq!(command, failed(MoveError::OutOfTurn));
    assert!(state.is_over());

    let (state, _) = MoveBatch::begin(list(&["/root/a.txt"]), "/root", "/dst", '/');
    let (state, _) = state.advance(MoveEvent::DirReady);
    let (_, command) = state.advance(MoveEvent::MoveFailed);
    assert_eq!(command, failed(MoveError::OutOfTurn));
}

#[test]
fn resolved_path_is_the_one_moved() {
    let (state, _) = MoveBatch::begin(list(&["/root/./a.txt"]), "/root", "/dst", '/');
    let (state, command) = state.advance(MoveEvent::DirReady);
    assert_eq!(command, resolve("/root/./a.txt"));
    let (state, _) = state.advance(resolved("/root/a.txt"));
    let (_, command) = state.advance(MoveEvent::DirReady);
    assert_eq!(command, move_file("/root/a.txt", "/dst/a.txt"));
}
