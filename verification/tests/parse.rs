use cargo_cite::model::{DependencyInfo, DependencySource, ManifestInfo};
use cargo_cite::parse::{Field, ManifestParseError};

fn parsed(text: &str) -> ManifestInfo {
    match ManifestInfo::parse(text) {
        Ok(m) => m,
        Err(e) => panic!("no manifest: {:?}", e),
    }
}

fn refused(text: &str) -> ManifestParseError {
    match ManifestInfo::parse(text) {
        Ok(_) => panic!("a manifest was read"),
        Err(e) => e,
    }
}

#[test]
fn reads_a_minimal_package() {
    let m = parsed("[package]\nname = \"foo\"\nversion = \"0.1.0\"\nauthors = [\"A B\"]\n");
    assert_eq!(m.package.name, "foo");
    assert_eq!(m.package.version, "0.1.0");
    assert_eq!(m.package.authors, vec![String::from("A B")]);
    assert_eq!(m.package.description, None);
    assert_eq!(m.package.repository, None);
    assert_eq!(m.package.keywords, None);
    assert!(m.dependencies.is_empty());
}

#[test]
fn absent_authors_are_an_empty_list() {
    let m = parsed("[package]\nname = \"foo\"\nversion = \"1\"\n");
    assert!(m.package.authors.is_empty());
}

#[test]
fn reads_every_package_field() {
    let m = parsed(
        "[package]\nname = \"foo\"\nversion = \"1.2.3\"\nauthors = [\"A\", \"B\"]\n\
         description = \"does things\"\nrepository = \"https://example.org/foo\"\n\
         keywords = [\"x\", \"y\"]\nedition = \"2021\"\n",
    );
    assert_eq!(m.package.authors, vec![String::from("A"), String::from("B")]);
    assert_eq!(m.package.description, Some(String::from("does things")));
    assert_eq!(m.package.repository, Some(String::from("https://example.org/foo")));
    assert_eq!(m.package.keywords, Some(vec![String::from("x"), String::from("y")]));
}

#[test]
fn dependencies_come_in_the_order_of_their_names() {
    let m = parsed(
        "[package]\nname = \"foo\"\nversion = \"1\"\n\n[dependencies]\n\
         zeta = \"2\"\nalpha = { version = \"1\", path = \"../alpha\" }\n\
         mid = { git = \"https://example.org/mid.git\" }\nbare = {}\n",
    );
    let names: Vec<&str> = m.dependencies.iter().map(|d| d.name.as_str()).collect();
    assert_eq!(names, vec!["alpha", "bare", "mid", "zeta"]);
    match &m.dependencies[0].info {
        DependencyInfo::Detailed { version, path, git } => {
            assert_eq!(version.as_deref(), Some("1"));
            assert_eq!(path.as_deref(), Some("../alpha"));
            assert_eq!(git.as_deref(), None);
        }
        DependencyInfo::Simple(_) => panic!("alpha is a table"),
    }
    match &m.dependencies[1].info {
        DependencyInfo::Detailed { version, path, git } => {
            assert!(version.is_none() && path.is_none() && git.is_none());
        }
        DependencyInfo::Simple(_) => panic!("bare is a table"),
    }
    match &m.dependencies[3].info {
        DependencyInfo::Simple(v) => assert_eq!(v, "2"),
        DependencyInfo::Detailed { .. } => panic!("zeta is a string"),
    }
}

#[test]
fn text_that_is_no_toml_is_a_syntax_error() {
    match refused("[package\nname = ") {
        ManifestParseError::Syntax(diagnostic) => assert!(!diagnostic.is_empty()),
        other => panic!("unexpected error: {:?}", other),
    }
}

#[test]
fn a_missing_package_table_is_reported() {
    assert!(matches!(refused(""), ManifestParseError::Missing(Field::Package)));
    assert!(matches!(
        refused("[dependencies]\nserde = \"1\"\n"),
        ManifestParseError::Missing(Field::Package)
    ));
}

#[test]
fn a_package_that_is_no_table_is_reported() {
    assert!(matches!(refused("package = 3\n"), ManifestParseError::Malformed(Field::Package)));
}

#[test]
fn missing_name_and_version_are_reported() {
    assert!(matches!(
        refused("[package]\nversion = \"1\"\n"),
        ManifestParseError::Missing(Field::Name)
    ));
    assert!(matches!(
        refused("[package]\nname = \"foo\"\n"),
        ManifestParseError::Missing(Field::Version)
    ));
}

#[test]
fn an_empty_name_is_reported() {
    assert!(matches!(
        refused("[package]\nname = \"\"\nversion = \"1\"\n"),
        ManifestParseError::EmptyName
    ));
}

#[test]
fn fields_of_the_wrong_shape_are_reported() {
    assert!(matches!(
        refused("[package]\nname = 1\nversion = \"1\"\n"),
        ManifestParseError::Malformed(Field::Name)
    ));
    assert!(matches!(
        refused("[package]\nname = \"foo\"\nversion = { workspace = true }\n"),
        ManifestParseError::Malformed(Field::Version)
    ));
    assert!(matches!(
        refused("[package]\nname = \"foo\"\nversion = \"1\"\nauthors = \"A\"\n"),
        ManifestParseError::Malformed(Field::Authors)
    ));
    assert!(matches!(
        refused("[package]\nname = \"foo\"\nversion = \"1\"\nauthors = [\"A\", 2]\n"),
        ManifestParseError::Malformed(Field::Authors)
    ));
    assert!(matches!(
        refused("[package]\nname = \"foo\"\nversion = \"1\"\ndescription = 4\n"),
        ManifestParseError::Malformed(Field::Description)
    ));
    assert!(matches!(
        refused("[package]\nname = \"foo\"\nversion = \"1\"\nrepository = []\n"),
        ManifestParseError::Malformed(Field::Repository)
    ));
    assert!(matches!(
        refused("[package]\nname = \"foo\"\nversion = \"1\"\nkeywords = [[\"x\"]]\n"),
        ManifestParseError::Malformed(Field::Keywords)
    ));
    assert!(matches!(
        refused("dependencies = \"x\"\n[package]\nname = \"foo\"\nversion = \"1\"\n"),
        ManifestParseError::Malformed(Field::Dependencies)
    ));
}

#[test]
fn the_first_fault_in_the_package_is_reported() {
    assert!(matches!(
        refused("[package]\nversion = 1\nauthors = 2\n"),
        ManifestParseError::Missing(Field::Name)
    ));
    assert!(matches!(
        refused("dependencies = 1\n[package]\nname = \"foo\"\n"),
        ManifestParseError::Missing(Field::Version)
    ));
}

#[test]
fn the_first_malformed_dependency_is_named() {
    let e = refused(
        "[package]\nname = \"foo\"\nversion = \"1\"\n\n[dependencies]\n\
         zz = 1\nbb = { version = 2 }\naa = \"1\"\n",
    );
    match e {
        ManifestParseError::MalformedDependency(name) => assert_eq!(name, "bb"),
        other => panic!("unexpected error: {:?}", other),
    }
    let e = refused(
        "[package]\nname = \"foo\"\nversion = \"1\"\n\n[dependencies]\nlist = [\"1\", \"p\", \"g\"]\n",
    );
    match e {
        ManifestParseError::MalformedDependency(name) => assert_eq!(name, "list"),
        other => panic!("unexpected error: {:?}", other),
    }
}

#[test]
fn reads_a_manifest_out_of_a_table_built_by_hand() {
    let mut package = toml::Table::new();
    package.insert(String::from("name"), toml::Value::String(String::from("foo")));
    package.insert(String::from("version"), toml::Value::String(String::from("0.1.0")));
    let mut detailed = toml::Table::new();
    detailed.insert(String::from("git"), toml::Value::String(String::from("https://g")));
    let mut dependencies = toml::Table::new();
    dependencies.insert(String::from("b"), toml::Value::Table(detailed));
    dependencies.insert(String::from("a"), toml::Value::String(String::from("1.0")));
    let mut root = toml::Table::new();
    root.insert(String::from("package"), toml::Value::Table(package));
    root.insert(String::from("dependencies"), toml::Value::Table(dependencies));

    let m = match ManifestInfo::from_table(&root) {
        Ok(m) => m,
        Err(e) => panic!("no manifest: {:?}", e),
    };
    assert_eq!(m.package.name, "foo");
    assert_eq!(m.dependencies.len(), 2);
    assert_eq!(m.dependencies[0].name, "a");
    assert!(matches!(m.dependencies[0].info.classify(), DependencySource::Registry));
    assert_eq!(m.dependencies[1].name, "b");
    match m.dependencies[1].info.classify() {
        DependencySource::VersionControl(g) => assert_eq!(g, "https://g"),
        _ => panic!("b is a git dependency"),
    }
}

#[test]
fn classification_goes_by_path_then_git() {
    let both = DependencyInfo::Detailed {
        version: None,
        path: Some(String::from("../p")),
        git: Some(String::from("https://g")),
    };
    match both.classify() {
        DependencySource::LocalPath(p) => assert_eq!(p, "../p"),
        _ => panic!("the path wins"),
    }
    let git = DependencyInfo::Detailed {
        version: Some(String::from("1")),
        path: None,
        git: Some(String::from("https://g")),
    };
    match git.classify() {
        DependencySource::VersionControl(g) => assert_eq!(g, "https://g"),
        _ => panic!("git alone is version control"),
    }
    let simple = DependencyInfo::Simple(String::from("1.0"));
    assert!(matches!(simple.classify(), DependencySource::Registry));
    let plain = DependencyInfo::Detailed { version: Some(String::from("1")), path: None, git: None };
    assert!(matches!(plain.classify(), DependencySource::Registry));
}

#[test]
fn version_and_source_info_are_read_off_the_reference() {
    let simple = DependencyInfo::Simple(String::from("1.0"));
    assert_eq!(simple.get_version(), Some(String::from("1.0")));
    assert_eq!(simple.get_source_info(), (None, None));
    let detailed = DependencyInfo::Detailed {
        version: None,
        path: Some(String::from("../p")),
        git: Some(String::from("https://g")),
    };
    assert_eq!(detailed.get_version(), None);
    assert_eq!(
        detailed.get_source_info(),
        (Some(String::from("../p")), Some(String::from("https://g")))
    );
}
