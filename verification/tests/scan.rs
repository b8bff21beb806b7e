use comic_scan::entries::{DirItem, FileItem};
use comic_scan::errors::CommandError;
use comic_scan::identity::derive_identity;
use comic_scan::scan::{
    dir_step, file_step, is_hidden, is_root, scan_directory, scan_for_child_dirs, ChildEntry,
    EntryKind, Listed, Listing, ScanPolicy, Step,
};

fn image(name: &str, width: u32, height: u32) -> Listed {
    Ok(ChildEntry {
        name: Some(String::from(name)),
        path: Some(format!("/comics/{}", name)),
        kind: EntryKind::File,
        dimensions: Some((width, height)),
    })
}

fn plain_file(name: &str) -> Listed {
    Ok(ChildEntry {
        name: Some(String::from(name)),
        path: Some(format!("/comics/{}", name)),
        kind: EntryKind::File,
        dimensions: None,
    })
}

fn directory(name: &str) -> Listed {
    Ok(ChildEntry {
        name: Some(String::from(name)),
        path: Some(format!("/comics/{}", name)),
        kind: EntryKind::Directory,
        dimensions: None,
    })
}

fn entry(name: Option<&str>, path: Option<&str>, kind: EntryKind, dimensions: Option<(u32, u32)>) -> ChildEntry {
    ChildEntry { name: name.map(String::from), path: path.map(String::from), kind, dimensions }
}

fn file_names(files: &[FileItem]) -> Vec<String> {
    files.iter().map(|f| f.filename.clone()).collect()
}

fn dir_names(dirs: &[DirItem]) -> Vec<String> {
    dirs.iter().map(|d| d.dirname.clone()).collect()
}

#[test]
fn scan_leaves_out_the_hidden_file() {
    let listing: Listing = Ok(vec![plain_file(".DS_Store"), image("a.jpg", 800, 600), image("b.png", 640, 480)]);
    let files = scan_directory(&listing, ScanPolicy::Lenient).unwrap();
    assert_eq!(files.len(), 2);
    assert_eq!(file_names(&files), vec!["a.jpg", "b.png"]);
}

#[test]
fn scan_builds_each_file_item_from_its_entry() {
    let listing: Listing = Ok(vec![image("a.jpg", 800, 600)]);
    assert_eq!(
        scan_directory(&listing, ScanPolicy::Strict),
        Ok(vec![FileItem {
            id: String::from("5102cb70-b45c-3724-89e1-fbbadb3a0782"),
            filename: String::from("a.jpg"),
            path: String::from("/comics/a.jpg"),
            height: 600,
            width: 800,
        }])
    );
}

#[test]
fn scan_gives_each_file_the_identity_of_its_path() {
    let listing: Listing = Ok(vec![image("b.png", 1, 2), image("a.jpg", 3, 4)]);
    let files = scan_directory(&listing, ScanPolicy::Lenient).unwrap();
    for file in &files {
        assert_eq!(file.id, derive_identity(Some(&file.path)).into_string());
    }
    assert_eq!(files[1].id, "ad9eed0b-7724-3fb9-8a8a-bae04c4889e9");
}

#[test]
fn scan_leaves_out_a_hidden_file_that_is_an_image() {
    let listing: Listing = Ok(vec![image(".cover.png", 10, 10), image("$thumb.png", 10, 10), image("page1.png", 10, 10)]);
    let files = scan_directory(&listing, ScanPolicy::Strict).unwrap();
    assert_eq!(file_names(&files), vec!["page1.png"]);
}

#[test]
fn lenient_scan_skips_the_corrupt_image() {
    let listing: Listing = Ok(vec![image("page1.png", 10, 20), plain_file("broken.png"), image("page2.png", 10, 20)]);
    let files = scan_directory(&listing, ScanPolicy::Lenient).unwrap();
    assert_eq!(file_names(&files), vec!["page1.png", "page2.png"]);
}

#[test]
fn strict_scan_fails_on_the_corrupt_image() {
    let listing: Listing = Ok(vec![image("page1.png", 10, 20), plain_file("broken.png"), image("page2.png", 10, 20)]);
    assert_eq!(
        scan_directory(&listing, ScanPolicy::Strict),
        Err(CommandError::NotAnImage(Some(String::from("/comics/broken.png"))))
    );
}

#[test]
fn scan_sorts_pages_in_reading_order() {
    let listing: Listing = Ok(vec![
        image("page10.png", 1, 1),
        image("page2.png", 1, 1),
        image("cover.png", 1, 1),
        image("page1.png", 1, 1),
        image("back.png", 1, 1),
    ]);
    let files = scan_directory(&listing, ScanPolicy::Lenient).unwrap();
    assert_eq!(file_names(&files), vec!["back.png", "cover.png", "page1.png", "page2.png", "page10.png"]);
}

#[test]
fn scan_of_an_empty_directory() {
    let listing: Listing = Ok(Vec::new());
    assert_eq!(scan_directory(&listing, ScanPolicy::Strict), Ok(Vec::new()));
    assert_eq!(scan_for_child_dirs(&listing, "/comics", ScanPolicy::Strict), Ok(Vec::new()));
}

#[test]
fn scan_leaves_out_directories_and_other_things() {
    let listing: Listing = Ok(vec![
        directory("vol1"),
        Ok(entry(Some("socket"), Some("/comics/socket"), EntryKind::Other, None)),
        Ok(entry(Some("dir.png"), Some("/comics/dir.png"), EntryKind::Directory, Some((1, 1)))),
        image("page1.png", 1, 1),
    ]);
    let files = scan_directory(&listing, ScanPolicy::Strict).unwrap();
    assert_eq!(file_names(&files), vec!["page1.png"]);
}

#[test]
fn scan_fails_where_the_directory_cannot_be_read() {
    let listing: Listing = Err(String::from("No such file or directory (os error 2)"));
    assert_eq!(
        scan_directory(&listing, ScanPolicy::Lenient),
        Err(CommandError::ReadDirectory(String::from("No such file or directory (os error 2)")))
    );
    assert_eq!(
        scan_for_child_dirs(&listing, "/comics", ScanPolicy::Lenient),
        Err(CommandError::ReadDirectory(String::from("No such file or directory (os error 2)")))
    );
}

#[test]
fn scan_fails_where_an_entry_cannot_be_read_under_either_policy() {
    let listing: Listing = Ok(vec![image("page1.png", 1, 1), Err(String::from("Input/output error")), image("page2.png", 1, 1)]);
    let expected = Err(CommandError::ReadEntry(String::from("Input/output error")));
    assert_eq!(scan_directory(&listing, ScanPolicy::Lenient), expected);
    assert_eq!(scan_directory(&listing, ScanPolicy::Strict), expected);
    assert_eq!(
        scan_for_child_dirs(&listing, "/comics", ScanPolicy::Lenient),
        Err(CommandError::ReadEntry(String::from("Input/output error")))
    );
}

#[test]
fn scan_reports_the_first_failure() {
    let listing: Listing = Ok(vec![
        plain_file("broken.png"),
        Err(String::from("Input/output error")),
    ]);
    assert_eq!(
        scan_directory(&listing, ScanPolicy::Strict),
        Err(CommandError::NotAnImage(Some(String::from("/comics/broken.png"))))
    );
    assert_eq!(
        scan_directory(&listing, ScanPolicy::Lenient),
        Err(CommandError::ReadEntry(String::from("Input/output error")))
    );
}

#[test]
fn strict_scan_fails_on_a_file_without_a_name_in_text() {
    let listing: Listing = Ok(vec![Ok(entry(None, Some("/comics/x"), EntryKind::File, Some((1, 1))))]);
    assert_eq!(scan_directory(&listing, ScanPolicy::Strict), Err(CommandError::MissingFileName));
    assert_eq!(scan_directory(&listing, ScanPolicy::Lenient), Ok(Vec::new()));
}

#[test]
fn strict_scan_fails_on_a_file_without_a_path_in_text() {
    let listing: Listing = Ok(vec![Ok(entry(Some("x.png"), None, EntryKind::File, Some((1, 1))))]);
    assert_eq!(scan_directory(&listing, ScanPolicy::Strict), Err(CommandError::MissingFilePath));
    assert_eq!(scan_directory(&listing, ScanPolicy::Lenient), Ok(Vec::new()));
}

#[test]
fn strict_scan_names_no_path_where_the_corrupt_file_has_none() {
    let listing: Listing = Ok(vec![Ok(entry(Some("x.png"), None, EntryKind::File, None))]);
    assert_eq!(scan_directory(&listing, ScanPolicy::Strict), Err(CommandError::NotAnImage(None)));
}

#[test]
fn child_dirs_are_listed_in_natural_order_and_are_no_roots() {
    let listing: Listing = Ok(vec![directory("vol10"), directory("vol2"), directory("extras"), directory("vol1")]);
    let dirs = scan_for_child_dirs(&listing, "/comics", ScanPolicy::Strict).unwrap();
    assert_eq!(dir_names(&dirs), vec!["extras", "vol1", "vol2", "vol10"]);
    assert!(dirs.iter().all(|d| !d.root));
}

#[test]
fn child_dir_item_is_built_from_its_entry() {
    let listing: Listing = Ok(vec![directory("vol1")]);
    assert_eq!(
        scan_for_child_dirs(&listing, "/comics", ScanPolicy::Strict),
        Ok(vec![DirItem {
            id: String::from("ac2e92e9-e85f-38cf-aca2-53c9c5e232c3"),
            dirname: String::from("vol1"),
            path: String::from("/comics/vol1"),
            root: false,
        }])
    );
}

#[test]
fn child_dirs_leave_out_hidden_entries_and_files() {
    let listing: Listing = Ok(vec![
        directory(".git"),
        directory("$RECYCLE.BIN"),
        image("page1.png", 1, 1),
        plain_file("notes.txt"),
        Ok(entry(Some("socket"), Some("/comics/socket"), EntryKind::Other, None)),
        directory("vol1"),
    ]);
    let dirs = scan_for_child_dirs(&listing, "/comics", ScanPolicy::Strict).unwrap();
    assert_eq!(dir_names(&dirs), vec!["vol1"]);
}

#[test]
fn child_dirs_leave_out_the_root_and_the_target() {
    let listing: Listing = Ok(vec![
        Ok(entry(Some("root"), Some("/"), EntryKind::Directory, None)),
        Ok(entry(Some("comics"), Some("/comics"), EntryKind::Directory, None)),
        directory("vol1"),
    ]);
    let dirs = scan_for_child_dirs(&listing, "/comics", ScanPolicy::Strict).unwrap();
    assert_eq!(dir_names(&dirs), vec!["vol1"]);
}

#[test]
fn strict_child_dirs_fail_on_a_directory_without_a_name_in_text() {
    let listing: Listing = Ok(vec![Ok(entry(None, Some("/comics/x"), EntryKind::Directory, None))]);
    assert_eq!(
        scan_for_child_dirs(&listing, "/comics", ScanPolicy::Strict),
        Err(CommandError::MissingDirectoryName)
    );
    assert_eq!(scan_for_child_dirs(&listing, "/comics", ScanPolicy::Lenient), Ok(Vec::new()));
}

#[test]
fn strict_child_dirs_fail_on_a_directory_without_a_path_in_text() {
    let listing: Listing = Ok(vec![Ok(entry(Some("x"), None, EntryKind::Directory, None))]);
    assert_eq!(
        scan_for_child_dirs(&listing, "/comics", ScanPolicy::Strict),
        Err(CommandError::MissingDirectoryPath)
    );
    assert_eq!(scan_for_child_dirs(&listing, "/comics", ScanPolicy::Lenient), Ok(Vec::new()));
}

#[test]
fn hidden_names_begin_with_a_dot_or_a_dollar_sign() {
    assert!(is_hidden(&entry(Some(".DS_Store"), None, EntryKind::File, None)));
    assert!(is_hidden(&entry(Some("$RECYCLE.BIN"), None, EntryKind::Directory, None)));
    assert!(is_hidden(&entry(Some("."), None, EntryKind::Directory, None)));
    assert!(!is_hidden(&entry(Some("a.b"), None, EntryKind::File, None)));
    assert!(!is_hidden(&entry(Some("a$"), None, EntryKind::File, None)));
    assert!(!is_hidden(&entry(Some(""), None, EntryKind::File, None)));
    assert!(!is_hidden(&entry(None, Some("/.x"), EntryKind::File, None)));
}

#[test]
fn root_is_the_single_slash() {
    assert!(is_root(&entry(None, Some("/"), EntryKind::Directory, None)));
    assert!(!is_root(&entry(None, Some("//"), EntryKind::Directory, None)));
    assert!(!is_root(&entry(None, Some("/home"), EntryKind::Directory, None)));
    assert!(!is_root(&entry(Some("/"), None, EntryKind::Directory, None)));
    assert!(!is_root(&entry(None, Some(""), EntryKind::Directory, None)));
}

#[test]
fn file_step_decides_about_one_entry() {
    assert!(matches!(file_step(&plain_file(".hidden"), ScanPolicy::Strict), Step::Skip));
    assert!(matches!(file_step(&directory("vol1"), ScanPolicy::Strict), Step::Skip));
    assert!(matches!(file_step(&plain_file("x.txt"), ScanPolicy::Lenient), Step::Skip));
    assert!(matches!(
        file_step(&plain_file("x.txt"), ScanPolicy::Strict),
        Step::Fail(CommandError::NotAnImage(Some(_)))
    ));
    assert!(matches!(
        file_step(&Err(String::from("gone")), ScanPolicy::Lenient),
        Step::Fail(CommandError::ReadEntry(_))
    ));
    match file_step(&image("a.jpg", 3, 4), ScanPolicy::Strict) {
        Step::Keep(file) => {
            assert_eq!(file.width, 3);
            assert_eq!(file.height, 4);
            assert_eq!(file.filename, "a.jpg");
        }
        _ => panic!("an image is listed"),
    }
}

#[test]
fn dir_step_decides_about_one_entry() {
    assert!(matches!(dir_step(&directory(".git"), "/comics", ScanPolicy::Strict), Step::Skip));
    assert!(matches!(dir_step(&image("a.jpg", 1, 1), "/comics", ScanPolicy::Strict), Step::Skip));
    assert!(matches!(dir_step(&directory("vol1"), "/comics/vol1", ScanPolicy::Strict), Step::Skip));
    assert!(matches!(
        dir_step(&Err(String::from("gone")), "/comics", ScanPolicy::Lenient),
        Step::Fail(CommandError::ReadEntry(_))
    ));
    match dir_step(&directory("vol1"), "/comics", ScanPolicy::Strict) {
        Step::Keep(dir) => {
            assert_eq!(dir.dirname, "vol1");
            assert_eq!(dir.path, "/comics/vol1");
            assert!(!dir.root);
        }
        _ => panic!("a directory is listed"),
    }
}
