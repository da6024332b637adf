use skye::package::{choose_package, package_entry, PackageEntry};

fn entries(names: &[&str]) -> Vec<PackageEntry> {
    names.iter().map(|n| package_entry(n)).collect()
}

#[test]
fn entry_parts_follow_the_file_name() {
    let e = package_entry("game.skye");
    assert_eq!(e.name, "game.skye");
    assert_eq!(e.extension.as_deref(), Some("skye"));
    assert_eq!(e.stem.as_deref(), Some("game"));
    let d = package_entry("game");
    assert_eq!(d.extension, None);
    assert_eq!(d.file_name.as_deref(), Some("game"));
    let h = package_entry(".hidden");
    assert_eq!(h.extension, None);
    assert_eq!(h.stem.as_deref(), Some(".hidden"));
}

#[test]
fn a_project_file_with_setup_and_folder_is_a_package() {
    let es = entries(&["setup.skye", "game.skye", "notes.txt", "game"]);
    assert_eq!(choose_package(&es), Some((vec![0, 1, 3], String::from("game"))));
}

#[test]
fn two_project_names_make_no_package() {
    let es = entries(&["game.skye", "other.skye"]);
    assert_eq!(choose_package(&es), None);
}

#[test]
fn no_project_file_makes_no_package() {
    let es = entries(&["setup.skye", "game"]);
    assert_eq!(choose_package(&es), None);
}

#[test]
fn two_folders_make_no_package() {
    let es = entries(&["game.skye", "game", "game"]);
    assert_eq!(choose_package(&es), None);
}

#[test]
fn the_scan_stops_after_three_counted_entries() {
    let es = entries(&["a.skye", "a", "a", "b"]);
    assert_eq!(choose_package(&es), None);
}
