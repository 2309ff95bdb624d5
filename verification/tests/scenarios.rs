use cargo_cite::model::{CrateInfo, ManifestInfo};
use cargo_cite::run::{process_cargo_file, AggregateTarget, Failure, FilePlan, Run, RunOptions};

fn options(dependencies: bool) -> RunOptions {
    RunOptions {
        path: None,
        filename: None,
        overwrite: false,
        readme_append: false,
        dependencies,
        max_depth: None,
    }
}

const MANIFEST: &str = "[package]\nname = \"foo\"\nversion = \"0.1.0\"\nauthors = [\"A B\"]\n";

#[test]
fn first_run_in_an_empty_directory_writes_the_citation() {
    let opt = options(false);
    let mut run = Run::new();
    let before = chrono::Local::now();
    let plan = process_cargo_file(MANIFEST, &opt, &vec![String::from("Cargo.toml")], false);
    let after = chrono::Local::now();
    let text = match plan {
        Ok(FilePlan::Package { citation: Some(text), readmes, .. }) => {
            assert!(readmes.is_empty());
            text
        }
        _ => panic!("the citation is written"),
    };
    run.record_success(opt.dependencies, "");
    assert_eq!(opt.citation_file(), "CITATION.bib");

    let dated = |now: &chrono::DateTime<chrono::Local>| {
        format!(
            "@misc{{foo,\n\ttitle={{foo}},\n\tauthor={{A B}},\n\tversion = {{0.1.0}},\n\tmonth = {},\n\tyear = {},\n}}\n",
            chrono::Datelike::month(now),
            chrono::Datelike::year(now)
        )
    };
    assert!(text == dated(&before) || text == dated(&after));
    assert!(!text.contains("url"));
    assert!(!text.contains("keywords"));
    assert_eq!((run.processed, run.skipped), (1, 0));
    assert_eq!(run.summary(), "\nSummary:\n- Successfully processed: 1 file\n");
}

#[test]
fn second_run_without_overwrite_changes_nothing() {
    let opt = options(false);
    let mut run = Run::new();
    match process_cargo_file(MANIFEST, &opt, &vec![String::from("Cargo.toml")], true) {
        Ok(FilePlan::Package { citation, .. }) => assert!(citation.is_none()),
        _ => panic!("a package plan is made"),
    }
    run.record_failure(Failure::DestinationExists);
    assert_eq!((run.processed, run.skipped), (0, 1));
    assert_eq!(run.summary(), "\nSummary:\n- Skipped due to errors: 1 file\n");
}

#[test]
fn dependency_mode_with_a_registry_dependency() {
    let opt = options(true);
    let text = "[package]\nname = \"foo\"\nversion = \"0.1.0\"\n\n[dependencies]\nserde = \"1.0\"\n";
    let manifest = match process_cargo_file(text, &opt, &Vec::new(), false) {
        Ok(FilePlan::Dependencies { manifest }) => manifest,
        _ => panic!("dependency mode hands the manifest on"),
    };
    assert_eq!(manifest.registry_lookups(), vec![Some(String::from("serde"))]);
    let lookups = vec![Some(CrateInfo {
        description: Some(String::from("A serialization framework")),
        repository: None,
        homepage: None,
        authors: None,
    })];
    let records = manifest.build_dependencies_bibtex(&lookups);
    let mut run = Run::new();
    run.record_success(opt.dependencies, records.as_str());

    assert!(run.dependencies.contains("\ttitle={serde},\n"));
    assert!(run.dependencies.contains("\tnote = {A serialization framework},\n"));
    assert!(run.dependencies.contains("\tversion = {1.0},\n"));
    assert!(run.dependencies.contains("\thowpublished = {https://crates.io/crates/serde},\n"));
    match opt.aggregate_target(run.dependencies.as_str()) {
        AggregateTarget::File(name) => assert_eq!(name, "DEPENDENCIES.bib"),
        _ => panic!("the aggregate goes to a file"),
    }
}

#[test]
fn dependency_mode_with_a_local_path_dependency() {
    let text =
        "[package]\nname = \"foo\"\nversion = \"0.1.0\"\n\n[dependencies]\nlocal = { path = \"../local\" }\n";
    let manifest = match ManifestInfo::parse(text) {
        Ok(m) => m,
        Err(e) => panic!("no manifest: {:?}", e),
    };
    assert_eq!(manifest.registry_lookups(), vec![None]);
    let records = manifest.build_dependencies_bibtex(&vec![None]);
    assert!(records.contains("\tnote = {Local dependency from path: ../local},\n"));
    assert!(!records.contains("howpublished"));
}

#[test]
fn the_same_dependency_in_two_manifests_is_written_twice() {
    let text = "[package]\nname = \"foo\"\nversion = \"0.1.0\"\n\n[dependencies]\nserde = \"1.0\"\n";
    let manifest = ManifestInfo::parse(text).expect("a manifest");
    let mut run = Run::new();
    let first = manifest.build_dependencies_bibtex(&vec![None]);
    run.record_success(true, first.as_str());
    let second = manifest.build_dependencies_bibtex(&vec![None]);
    run.record_success(true, second.as_str());
    assert_eq!(run.dependencies.matches("@misc{rust-serde,").count(), 2);
    assert_eq!(run.processed, 2);
}
