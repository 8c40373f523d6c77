use libyang::locator::{
    exact_file_name, is_path, join_path, parent_dir, scan_entries, scan_target, DirEntry,
    ScanTarget, Yang,
};
use libyang::modules::Modules;

fn file(name: &str) -> DirEntry {
    DirEntry::File(String::from(name))
}

#[test]
fn scan_dir() {
    let entries = vec![
        file("ietf-dhcp@2016-08-25.yang"),
        file("parse.rs"),
        file("ietf-dhcp@2017-03-02.yang"),
        file("scan_dir.rs"),
    ];
    let path = String::from("tests/ietf-dhcp@2017-03-02.yang");
    match scan_entries("tests", &entries, "ietf-dhcp.yang", false) {
        Some(p) => assert_eq!(p, path),
        None => panic!("scan_dir should match to yang file."),
    }
}

fn scan_tree(name: &str, recursive: bool) -> Option<String> {
    let ietf = vec![file("ietf-inet-types.yang"), file("ietf-yang-types.yang")];
    let found_ietf = if recursive {
        scan_entries("yang/third_party/ietf", &ietf, name, true)
    } else {
        None
    };
    let third_party = vec![DirEntry::Dir(String::from("ietf"), found_ietf)];
    let found_third = if recursive {
        scan_entries("yang/third_party", &third_party, name, true)
    } else {
        None
    };
    let top = vec![file("README"), DirEntry::Dir(String::from("third_party"), found_third)];
    scan_entries("yang", &top, name, recursive)
}

#[test]
fn scan_dir_recursive() {
    let path = String::from("yang/third_party/ietf/ietf-inet-types.yang");
    match scan_tree("ietf-inet-types.yang", true) {
        Some(p) => assert_eq!(p, path),
        None => panic!("scan_dir should match to yang file."),
    }
}

#[test]
fn scan_dir_recursive_without_yang() {
    let path = String::from("yang/third_party/ietf/ietf-inet-types.yang");
    match scan_tree("ietf-inet-types", true) {
        Some(p) => assert_eq!(p, path),
        None => panic!("scan_dir should match to yang file."),
    }
}

#[test]
fn non_recursive_scan_does_not_descend() {
    assert_eq!(scan_tree("ietf-inet-types", false), None);
}

#[test]
fn exact_file_wins_over_revisions() {
    let entries = vec![file("m@2020-01-01.yang"), file("m.yang"), file("m@2021-01-01.yang")];
    assert_eq!(scan_entries("d/", &entries, "m", false), Some(String::from("d/m.yang")));
}

#[test]
fn explicit_revision_takes_no_candidates() {
    let entries = vec![file("m@2020-01-01.yang"), file("m@2021-01-01.yang")];
    assert_eq!(scan_entries("d", &entries, "m@2019-01-01", false), None);
    assert_eq!(
        scan_entries("d", &entries, "m@2020-01-01", false),
        Some(String::from("d/m@2020-01-01.yang"))
    );
}

#[test]
fn other_modules_are_not_candidates() {
    let entries = vec![file("mx@2020-01-01.yang"), file("m@2020-01-01.txt")];
    assert_eq!(scan_entries("d", &entries, "m", false), None);
}

#[test]
fn search_path() {
    let mut y = Yang::new();
    y.add_path("/etc/openconfigd/yang:yang/...");
    assert_eq!(y.paths, vec![String::from("/etc/openconfigd/yang"), String::from("yang/...")]);
    y.add_path("a::b");
    assert_eq!(y.paths.len(), 5);
    assert_eq!(y.paths[3], "");
    let order = y.search_order();
    assert_eq!(order.len(), 5);
    assert_eq!(order[0], ScanTarget { dir: String::from("/etc/openconfigd/yang"), recursive: false });
    assert_eq!(order[4], ScanTarget { dir: String::from("yang"), recursive: true });
    assert_eq!(scan_target("..."), ScanTarget { dir: String::from("."), recursive: true });
}

#[test]
fn remember_adds_a_directory_once() {
    let mut y = Yang::new();
    y.remember("yang/third_party/ietf/ietf-inet-types.yang");
    y.remember("yang/third_party/ietf/ietf-yang-types.yang");
    assert_eq!(y.paths, vec![String::from("yang/third_party/ietf")]);
    y.remember("local.yang");
    assert_eq!(y.paths[1], ".");
}

#[test]
fn file_names_and_paths() {
    assert_eq!(exact_file_name("ietf-dhcp.yang"), "ietf-dhcp.yang");
    assert_eq!(exact_file_name("ietf-dhcp"), "ietf-dhcp.yang");
    assert_eq!(join_path("tests", "a.yang"), "tests/a.yang");
    assert_eq!(join_path("", "a.yang"), "a.yang");
    assert_eq!(parent_dir("a/b/c.yang"), "a/b");
    assert!(is_path("a/b.yang"));
    assert!(!is_path("b"));
}

#[test]
fn registry_starts_empty() {
    let ms = Modules::new();
    assert!(ms.modules.is_empty());
}
