use comic_scan::entries::DirItem;
use comic_scan::errors::CommandError;
use comic_scan::volumes::{
    keep_mount, last_path_component, mount_display_name, show_drives, volume_item, MountQuery,
    Platform,
};

fn mount(path: &str) -> Option<String> {
    Some(String::from(path))
}

fn drive_names(drives: &[DirItem]) -> Vec<String> {
    drives.iter().map(|d| d.dirname.clone()).collect()
}

#[test]
fn system_and_device_mounts_are_not_shown_on_unix() {
    assert!(!keep_mount(Platform::UnixLike, &mount("/dev")));
    assert!(!keep_mount(Platform::UnixLike, &mount("/dev/shm")));
    assert!(!keep_mount(Platform::UnixLike, &mount("/System")));
    assert!(!keep_mount(Platform::UnixLike, &mount("/System/Volumes/Data")));
}

#[test]
fn other_mounts_are_shown_on_unix() {
    assert!(keep_mount(Platform::UnixLike, &mount("/")));
    assert!(keep_mount(Platform::UnixLike, &mount("/home")));
    assert!(keep_mount(Platform::UnixLike, &mount("/devices")));
    assert!(keep_mount(Platform::UnixLike, &mount("/Systems")));
    assert!(keep_mount(Platform::UnixLike, &mount("/mnt/dev")));
    assert!(keep_mount(Platform::UnixLike, &mount("/system")));
    assert!(keep_mount(Platform::UnixLike, &mount("")));
    assert!(keep_mount(Platform::UnixLike, &None));
}

#[test]
fn every_mount_is_shown_on_windows() {
    assert!(keep_mount(Platform::Windows, &mount("C:\\")));
    assert!(keep_mount(Platform::Windows, &mount("/dev")));
    assert!(keep_mount(Platform::Windows, &mount("/System")));
    assert!(keep_mount(Platform::Windows, &None));
}

#[test]
fn last_component_of_a_path() {
    assert_eq!(last_path_component("/mnt/data"), "data");
    assert_eq!(last_path_component("/home"), "home");
    assert_eq!(last_path_component("data"), "data");
    assert_eq!(last_path_component("/mnt/data/"), "data");
    assert_eq!(last_path_component("/mnt/data//"), "data");
    assert_eq!(last_path_component("/Volumes/My Disk"), "My Disk");
    assert_eq!(last_path_component("/mnt/\u{6f2b}\u{753b}"), "\u{6f2b}\u{753b}");
}

#[test]
fn last_component_of_a_path_without_one() {
    assert_eq!(last_path_component("/"), "");
    assert_eq!(last_path_component("//"), "");
    assert_eq!(last_path_component(""), "");
}

#[test]
fn display_name_is_the_last_component_on_unix() {
    assert_eq!(mount_display_name(Platform::UnixLike, &mount("/mnt/data")), "data");
    assert_eq!(mount_display_name(Platform::UnixLike, &mount("/")), "/");
    assert_eq!(mount_display_name(Platform::UnixLike, &mount("")), "/");
    assert_eq!(mount_display_name(Platform::UnixLike, &None), "/");
}

#[test]
fn display_name_is_the_whole_path_on_windows() {
    assert_eq!(mount_display_name(Platform::Windows, &mount("C:\\")), "C:\\");
    assert_eq!(mount_display_name(Platform::Windows, &mount("D:\\Comics")), "D:\\Comics");
    assert_eq!(mount_display_name(Platform::Windows, &mount("")), "/");
    assert_eq!(mount_display_name(Platform::Windows, &None), "/");
}

#[test]
fn volume_item_of_a_mount() {
    assert_eq!(
        volume_item(Platform::UnixLike, &mount("/mnt/data")),
        DirItem {
            id: String::from("ecabd55f-704f-30f0-9cc4-1be6e7e7ab83"),
            dirname: String::from("data"),
            path: String::from("/mnt/data"),
            root: true,
        }
    );
}

#[test]
fn volume_item_of_the_root() {
    assert_eq!(
        volume_item(Platform::UnixLike, &mount("/")),
        DirItem {
            id: String::from("6666cd76-f969-3646-9e7b-e39d750cc7d9"),
            dirname: String::from("/"),
            path: String::from("/"),
            root: true,
        }
    );
}

#[test]
fn volume_item_of_a_mount_without_a_path_in_text() {
    let item = volume_item(Platform::UnixLike, &None);
    assert_eq!(item.dirname, "/");
    assert_eq!(item.path, "");
    assert!(item.root);
    assert_eq!(item.id.len(), 36);
    assert_eq!(item.id.chars().nth(14), Some('4'));
}

#[test]
fn drives_are_roots_in_natural_order() {
    let query: MountQuery = Ok(vec![mount("/mnt/disk10"), mount("/"), mount("/mnt/disk2"), mount("/home")]);
    let drives = show_drives(&query, Platform::UnixLike).unwrap();
    assert_eq!(drive_names(&drives), vec!["/", "home", "disk2", "disk10"]);
    assert!(drives.iter().all(|d| d.root));
}

#[test]
fn drives_leave_out_the_mounts_of_the_system_on_unix() {
    let query: MountQuery = Ok(vec![
        mount("/dev"),
        mount("/"),
        mount("/dev/shm"),
        mount("/System/Volumes/Data"),
        mount("/home"),
    ]);
    let drives = show_drives(&query, Platform::UnixLike).unwrap();
    let paths: Vec<String> = drives.iter().map(|d| d.path.clone()).collect();
    assert_eq!(paths, vec!["/", "/home"]);
}

#[test]
fn drives_keep_every_mount_on_windows() {
    let query: MountQuery = Ok(vec![mount("D:\\"), mount("C:\\"), mount("/dev")]);
    let drives = show_drives(&query, Platform::Windows).unwrap();
    assert_eq!(drive_names(&drives), vec!["/dev", "C:\\", "D:\\"]);
    assert!(drives.iter().all(|d| d.root));
}

#[test]
fn drives_carry_the_identity_of_their_path() {
    let query: MountQuery = Ok(vec![mount("/home")]);
    assert_eq!(
        show_drives(&query, Platform::UnixLike),
        Ok(vec![DirItem {
            id: String::from("4858dab5-b4ac-36ad-ab7d-274698c2532a"),
            dirname: String::from("home"),
            path: String::from("/home"),
            root: true,
        }])
    );
}

#[test]
fn drives_of_no_mounts() {
    let query: MountQuery = Ok(Vec::new());
    assert_eq!(show_drives(&query, Platform::UnixLike), Ok(Vec::new()));
}

#[test]
fn drives_fail_where_the_mounts_cannot_be_listed() {
    let query: MountQuery = Err(String::from("permission denied"));
    assert_eq!(
        show_drives(&query, Platform::UnixLike),
        Err(CommandError::ListMounts(String::from("permission denied")))
    );
}

#[test]
fn drive_without_a_path_in_text_gets_a_random_identity() {
    let query: MountQuery = Ok(vec![None, mount("/home")]);
    let drives = show_drives(&query, Platform::UnixLike).unwrap();
    assert_eq!(drive_names(&drives), vec!["/", "home"]);
    assert_eq!(drives[0].path, "");
    assert_eq!(drives[0].id.chars().nth(14), Some('4'));
    assert_eq!(drives[1].id, "4858dab5-b4ac-36ad-ab7d-274698c2532a");
}
