use cargo_cite::model::{CrateInfo, Dependency, DependencyInfo, ManifestInfo, PackageInfo};

fn simple(name: &str, version: &str) -> Dependency {
    Dependency { name: String::from(name), info: DependencyInfo::Simple(String::from(version)) }
}

fn detailed(name: &str, version: Option<&str>, path: Option<&str>, git: Option<&str>) -> Dependency {
    Dependency {
        name: String::from(name),
        info: DependencyInfo::Detailed {
            version: version.map(String::from),
            path: path.map(String::from),
            git: git.map(String::from),
        },
    }
}

fn answer(
    description: Option<&str>,
    repository: Option<&str>,
    homepage: Option<&str>,
    authors: Option<&[&str]>,
) -> CrateInfo {
    CrateInfo {
        description: description.map(String::from),
        repository: repository.map(String::from),
        homepage: homepage.map(String::from),
        authors: authors.map(|a| a.iter().map(|s| String::from(*s)).collect()),
    }
}

fn manifest(dependencies: Vec<Dependency>) -> ManifestInfo {
    ManifestInfo {
        package: PackageInfo {
            name: String::from("foo"),
            version: String::from("0.1.0"),
            authors: Vec::new(),
            description: None,
            repository: None,
            keywords: None,
        },
        dependencies,
    }
}

#[test]
fn registry_dependency_with_a_full_answer() {
    let dep = simple("serde", "1.0");
    let info = answer(Some("A framework"), Some("https://repo"), Some("https://home"), Some(&["X", "Y"]));
    assert_eq!(
        dep.build_bibtex_at(Some(&info), 10, 2026),
        "@misc{rust-serde,\n\ttitle={serde},\n\tnote = {A framework},\n\tauthor = {X and Y},\n\turl = {https://repo},\n\tversion = {1.0},\n\tyear = 2026,\n\tmonth = 10,\n\thowpublished = {https://crates.io/crates/serde},\n}\n\n"
    );
}

#[test]
fn registry_dependency_with_a_failed_lookup() {
    let dep = simple("serde", "1.0");
    assert_eq!(
        dep.build_bibtex_at(None, 3, 2024),
        "@misc{rust-serde,\n\ttitle={serde},\n\tversion = {1.0},\n\tyear = 2024,\n\tmonth = 3,\n\thowpublished = {https://crates.io/crates/serde},\n}\n\n"
    );
}

#[test]
fn homepage_stands_in_for_a_missing_repository() {
    let dep = detailed("x", None, None, None);
    let info = answer(None, None, Some("https://home"), Some(&[]));
    assert_eq!(
        dep.build_bibtex_at(Some(&info), 1, 2000),
        "@misc{rust-x,\n\ttitle={x},\n\turl = {https://home},\n\tyear = 2000,\n\tmonth = 1,\n\thowpublished = {https://crates.io/crates/x},\n}\n\n"
    );
}

#[test]
fn answer_without_anything_adds_no_line() {
    let dep = simple("x", "2");
    let info = answer(None, None, None, None);
    assert_eq!(dep.build_bibtex_at(Some(&info), 1, 2000), dep.build_bibtex_at(None, 1, 2000));
}

#[test]
fn local_path_dependency_has_a_note_and_no_registry_link() {
    let dep = detailed("local", None, Some("../local"), None);
    let info = answer(Some("ignored"), None, None, None);
    let expected = "@misc{rust-local,\n\ttitle={local},\n\tnote = {Local dependency from path: ../local},\n\tyear = 2026,\n\tmonth = 10,\n}\n\n";
    assert_eq!(dep.build_bibtex_at(None, 10, 2026), expected);
    assert_eq!(dep.build_bibtex_at(Some(&info), 10, 2026), expected);
}

#[test]
fn git_dependency_has_a_url_and_a_note() {
    let dep = detailed("g", Some("0.3"), None, Some("https://example.org/g.git"));
    assert_eq!(
        dep.build_bibtex_at(None, 7, 2025),
        "@misc{rust-g,\n\ttitle={g},\n\turl = {https://example.org/g.git},\n\tnote = {Git dependency},\n\tversion = {0.3},\n\tyear = 2025,\n\tmonth = 7,\n}\n\n"
    );
}

#[test]
fn path_wins_over_git_in_the_record() {
    let dep = detailed("both", None, Some("../both"), Some("https://example.org/both.git"));
    assert_eq!(
        dep.build_bibtex_at(None, 7, 2025),
        "@misc{rust-both,\n\ttitle={both},\n\tnote = {Local dependency from path: ../both},\n\tyear = 2025,\n\tmonth = 7,\n}\n\n"
    );
}

#[test]
fn lookups_are_asked_for_registry_dependencies_only() {
    let m = manifest(vec![
        simple("a", "1"),
        detailed("b", None, Some("../b"), None),
        detailed("c", None, None, Some("https://c")),
        detailed("d", Some("2"), None, None),
    ]);
    assert_eq!(
        m.registry_lookups(),
        vec![Some(String::from("a")), None, None, Some(String::from("d"))]
    );
    assert!(manifest(Vec::new()).registry_lookups().is_empty());
}

#[test]
fn records_of_a_manifest_follow_each_other_in_order() {
    let m = manifest(vec![simple("a", "1"), detailed("b", None, Some("../b"), None), simple("c", "3")]);
    let lookups = vec![Some(answer(Some("first"), None, None, None)), None];
    let before = chrono::Local::now();
    let text = m.build_dependencies_bibtex(&lookups);
    let after = chrono::Local::now();
    let expected = |now: &chrono::DateTime<chrono::Local>| {
        let month = chrono::Datelike::month(now);
        let year = chrono::Datelike::year(now);
        let mut all = String::new();
        all.push_str(&m.dependencies[0].build_bibtex_at(lookups[0].as_ref(), month, year));
        all.push_str(&m.dependencies[1].build_bibtex_at(None, month, year));
        all.push_str(&m.dependencies[2].build_bibtex_at(None, month, year));
        all
    };
    assert!(text == expected(&before) || text == expected(&after));
    assert!(text.starts_with("@misc{rust-a,\n\ttitle={a},\n\tnote = {first},\n"));
    assert_eq!(text.matches("@misc{").count(), 3);
}

#[test]
fn manifest_without_dependencies_gives_no_records() {
    assert_eq!(manifest(Vec::new()).build_dependencies_bibtex(&Vec::new()), "");
}

#[test]
fn record_dated_today_carries_the_current_date() {
    let dep = simple("serde", "1.0");
    let before = chrono::Local::now();
    let record = dep.build_bibtex(None);
    let after = chrono::Local::now();
    let a = dep.build_bibtex_at(None, chrono::Datelike::month(&before), chrono::Datelike::year(&before));
    let b = dep.build_bibtex_at(None, chrono::Datelike::month(&after), chrono::Datelike::year(&after));
    assert!(record == a || record == b);
}
