use dispersion::paths::{join_path, parent_dir, strip_root};

#[test]
fn path_below_root_is_relative() {
    assert_eq!(strip_root("/root/a.txt", "/root", '/'), Some("a.txt".to_string()));
    assert_eq!(strip_root("/root/dir/b.txt", "/root", '/'), Some("dir/b.txt".to_string()));
    assert_eq!(strip_root("/a.txt", "/", '/'), Some("a.txt".to_string()));
    assert_eq!(strip_root("C:\\app\\bin\\x.dll", "C:\\app", '\\'), Some("bin\\x.dll".to_string()));
}

#[test]
fn root_itself_is_the_empty_location() {
    assert_eq!(strip_root("/root", "/root", '/'), Some(String::new()));
    assert_eq!(strip_root("/root/", "/root", '/'), Some(String::new()));
    assert_eq!(strip_root("", "", '/'), Some(String::new()));
}

#[test]
fn path_elsewhere_is_not_relative() {
    assert_eq!(strip_root("/rootless/a.txt", "/root", '/'), None);
    assert_eq!(strip_root("/other/a.txt", "/root", '/'), None);
    assert_eq!(strip_root("/roo", "/root", '/'), None);
    assert_eq!(strip_root("/root/a.txt", "/root", '\\'), None);
}

#[test]
fn join_puts_one_separator_between() {
    assert_eq!(join_path("/dst", "a.txt", '/'), "/dst/a.txt");
    assert_eq!(join_path("/dst", "dir/b.txt", '/'), "/dst/dir/b.txt");
    assert_eq!(join_path("/dst/", "a.txt", '/'), "/dst/a.txt");
    assert_eq!(join_path("/", "a.txt", '/'), "/a.txt");
    assert_eq!(join_path("C:\\dst", "a.txt", '\\'), "C:\\dst\\a.txt");
}

#[test]
fn join_with_an_empty_part() {
    assert_eq!(join_path("/dst", "", '/'), "/dst");
    assert_eq!(join_path("", "a.txt", '/'), "a.txt");
    assert_eq!(join_path("", "", '/'), "");
}

#[test]
fn parent_is_what_stands_before_the_last_separator() {
    assert_eq!(parent_dir("/dst/dir/b.txt", '/'), "/dst/dir");
    assert_eq!(parent_dir("/dst/a.txt", '/'), "/dst");
    assert_eq!(parent_dir("dir/b.txt", '/'), "dir");
    assert_eq!(parent_dir("dir/", '/'), "dir");
    assert_eq!(parent_dir("C:\\dst\\a.txt", '\\'), "C:\\dst");
}

#[test]
fn parent_at_the_top() {
    assert_eq!(parent_dir("/a.txt", '/'), "/");
    assert_eq!(parent_dir("/", '/'), "/");
    assert_eq!(parent_dir("a.txt", '/'), "");
    assert_eq!(parent_dir("", '/'), "");
}

#[test]
fn moved_file_keeps_its_relative_place() {
    for relative in ["a.txt", "dir/b.txt", "x/y/z"] {
        let from = join_path("/root", relative, '/');
        let to = join_path("/backup", strip_root(&from, "/root", '/').unwrap().as_str(), '/');
        assert_eq!(strip_root(&to, "/backup", '/'), Some(relative.to_string()));
    }
}
