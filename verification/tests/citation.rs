use cargo_cite::model::PackageInfo;

fn package(name: &str, version: &str, authors: &[&str]) -> PackageInfo {
    PackageInfo {
        name: String::from(name),
        version: String::from(version),
        authors: authors.iter().map(|a| String::from(*a)).collect(),
        description: None,
        repository: None,
        keywords: None,
    }
}

#[test]
fn record_of_a_minimal_package() {
    let p = package("foo", "0.1.0", &["A B"]);
    assert_eq!(
        p.build_bibtex_at(10, 2026),
        "@misc{foo,\n\ttitle={foo},\n\tauthor={A B},\n\tversion = {0.1.0},\n\tmonth = 10,\n\tyear = 2026,\n}\n"
    );
}

#[test]
fn record_with_every_optional_field() {
    let mut p = package("foo", "1.2.3", &["A B", "C D"]);
    p.description = Some(String::from("does things"));
    p.repository = Some(String::from("https://example.org/foo"));
    p.keywords = Some(vec![String::from("x"), String::from("y")]);
    assert_eq!(
        p.build_bibtex_at(1, 1999),
        "@misc{foo,\n\ttitle={foo: does things},\n\tauthor={A B and C D},\n\tversion = {1.2.3},\n\tmonth = 1,\n\tyear = 1999,\n\turl = {https://example.org/foo},\n\tkeywords = {x, y}\n}\n"
    );
}

#[test]
fn readme_section_is_the_fixed_text() {
    let p = package("foo", "1", &[]);
    assert_eq!(
        p.readme_section(),
        "\n## Citing\n\nIf you found this software useful consider citing it. See CITATION.bib for the recommended BibTeX entry.\n"
    );
}

#[test]
fn record_without_authors_has_an_empty_author_field() {
    let p = package("foo", "1", &[]);
    assert_eq!(
        p.build_bibtex_at(12, -5),
        "@misc{foo,\n\ttitle={foo},\n\tauthor={},\n\tversion = {1},\n\tmonth = 12,\n\tyear = -5,\n}\n"
    );
}

#[test]
fn record_dated_today_differs_from_a_dated_one_only_in_the_date() {
    let p = package("foo", "0.1.0", &["A B"]);
    let before = chrono::Local::now();
    let record = p.build_bibtex();
    let after = chrono::Local::now();
    let a = p.build_bibtex_at(chrono::Datelike::month(&before), chrono::Datelike::year(&before));
    let b = p.build_bibtex_at(chrono::Datelike::month(&after), chrono::Datelike::year(&after));
    assert!(record == a || record == b);
}
