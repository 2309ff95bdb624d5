use cargo_cite::locate::{find_cargo_files, walk_limit, WalkEntry};

fn entry(depth: usize, is_file: bool, name: &str, path: &str) -> WalkEntry {
    WalkEntry { depth, is_file, name: String::from(name), path: String::from(path) }
}

fn tree() -> Vec<WalkEntry> {
    vec![
        entry(0, false, "root", "root"),
        entry(1, true, "Cargo.toml", "root/Cargo.toml"),
        entry(1, true, "README.md", "root/README.md"),
        entry(1, false, "sub", "root/sub"),
        entry(2, true, "Cargo.toml", "root/sub/Cargo.toml"),
        entry(2, false, "Cargo.toml", "root/sub2/Cargo.toml"),
        entry(2, false, "deep", "root/sub/deep"),
        entry(3, true, "Cargo.toml", "root/sub/deep/Cargo.toml"),
        entry(3, true, "cargo.toml", "root/sub/deep/cargo.toml"),
    ]
}

#[test]
fn the_limit_is_one_step_more_than_the_bound() {
    assert_eq!(walk_limit(None), None);
    assert_eq!(walk_limit(Some(-1)), None);
    assert_eq!(walk_limit(Some(i32::MIN)), None);
    assert_eq!(walk_limit(Some(0)), Some(1));
    assert_eq!(walk_limit(Some(1)), Some(2));
    assert_eq!(walk_limit(Some(i32::MAX)), Some(2147483648));
}

#[test]
fn without_a_bound_every_manifest_file_is_found_in_walk_order() {
    let all = vec![
        String::from("root/Cargo.toml"),
        String::from("root/sub/Cargo.toml"),
        String::from("root/sub/deep/Cargo.toml"),
    ];
    assert_eq!(find_cargo_files(&tree(), None), all);
    assert_eq!(find_cargo_files(&tree(), Some(-1)), all);
    assert_eq!(find_cargo_files(&tree(), Some(-7)), all);
}

#[test]
fn bound_zero_finds_only_what_lies_directly_inside() {
    assert_eq!(find_cargo_files(&tree(), Some(0)), vec![String::from("root/Cargo.toml")]);
}

#[test]
fn each_level_of_the_bound_allows_one_directory_more() {
    assert_eq!(
        find_cargo_files(&tree(), Some(1)),
        vec![String::from("root/Cargo.toml"), String::from("root/sub/Cargo.toml")]
    );
    assert_eq!(find_cargo_files(&tree(), Some(2)).len(), 3);
}

#[test]
fn selection_is_the_same_when_repeated() {
    let entries = tree();
    assert_eq!(find_cargo_files(&entries, Some(1)), find_cargo_files(&entries, Some(1)));
    assert_eq!(find_cargo_files(&entries, None), find_cargo_files(&entries, None));
}

#[test]
fn an_empty_walk_finds_nothing() {
    assert!(find_cargo_files(&Vec::new(), None).is_empty());
}

#[test]
fn directories_and_other_names_are_no_manifests() {
    assert!(!entry(1, false, "Cargo.toml", "p").is_manifest(None));
    assert!(!entry(1, true, "Cargo.lock", "p").is_manifest(None));
    assert!(entry(1, true, "Cargo.toml", "p").is_manifest(Some(0)));
    assert!(!entry(2, true, "Cargo.toml", "p").is_manifest(Some(0)));
    assert!(entry(2, true, "Cargo.toml", "p").is_manifest(Some(-1)));
}
