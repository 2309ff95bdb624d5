//! Reading a manifest out of its TOML text.

use vstd::prelude::*;
use vstd::string::*;
use crate::document::{
    diagnostic, document_of, entries_of, node_of, parse_document, table_get, table_keys, Node,
};
use crate::model::{
    dependency_views, opt_text, opt_texts, Dependency, DependencyInfo, DependencyView,
    ManifestInfo, ManifestView, PackageInfo, PackageView,
};
use crate::ordering::{
    ascending, lemma_ascending_is_unique, lemma_text_lt_asymmetric, lemma_text_lt_total,
    sort_names, text_lt,
};
use crate::text::views;

verus! {

/// A place of the manifest that the model reads.
#[derive(Clone, Copy, Debug, PartialEq, Eq, Structural)]
pub enum Field {
    Package,
    Name,
    Version,
    Authors,
    Description,
    Repository,
    Keywords,
    Dependencies,
}

/// Why a text is no manifest.
#[derive(Debug)]
pub enum ManifestParseError {
    /// The text is not a TOML document; the parser's diagnostic.
    Syntax(String),
    /// A place that must be there is not.
    Missing(Field),
    /// A place holds a value of the wrong shape.
    Malformed(Field),
    /// The package's name is the empty string.
    EmptyName,
    /// The dependency of this name is neither a version string nor a table
    /// whose `version`, `path` and `git`, where present, are strings.
    MalformedDependency(String),
}

/// A parse error as plain values.
pub enum ErrorView {
    Syntax(Seq<char>),
    Missing(Field),
    Malformed(Field),
    EmptyName,
    MalformedDependency(Seq<char>),
}

impl View for ManifestParseError {
    type V = ErrorView;

    open spec fn view(&self) -> ErrorView {
        match *self {
            ManifestParseError::Syntax(m) => ErrorView::Syntax(m@),
            ManifestParseError::Missing(f) => ErrorView::Missing(f),
            ManifestParseError::Malformed(f) => ErrorView::Malformed(f),
            ManifestParseError::EmptyName => ErrorView::EmptyName,
            ManifestParseError::MalformedDependency(n) => ErrorView::MalformedDependency(n@),
        }
    }
}

/// How a place of the manifest is written in a diagnostic.
pub open spec fn place_text(f: Field) -> Seq<char> {
    match f {
        Field::Package => "package"@,
        Field::Name => "package.name"@,
        Field::Version => "package.version"@,
        Field::Authors => "package.authors"@,
        Field::Description => "package.description"@,
        Field::Repository => "package.repository"@,
        Field::Keywords => "package.keywords"@,
        Field::Dependencies => "dependencies"@,
    }
}

impl ErrorView {
    /// The diagnostic in words: the parser's own for a syntax error, else
    /// the fault and the place at fault.
    pub open spec fn diagnostic(self) -> Seq<char> {
        match self {
            ErrorView::Syntax(m) => m,
            ErrorView::Missing(f) => "missing field: "@ + place_text(f),
            ErrorView::Malformed(f) => "wrong type of field: "@ + place_text(f),
            ErrorView::EmptyName => "empty field: package.name"@,
            ErrorView::MalformedDependency(n) => "neither a version nor a table of strings: dependencies."@
                + n,
        }
    }
}

impl Field {
    /// How this place is written in a diagnostic.
    pub fn place(&self) -> (r: &'static str)
        ensures
            r@ == place_text(*self),
    {
        match self {
            Field::Package => "package",
            Field::Name => "package.name",
            Field::Version => "package.version",
            Field::Authors => "package.authors",
            Field::Description => "package.description",
            Field::Repository => "package.repository",
            Field::Keywords => "package.keywords",
            Field::Dependencies => "dependencies",
        }
    }
}

impl ManifestParseError {
    /// The diagnostic in words.
    pub fn diagnostic(&self) -> (r: String)
        ensures
            r@ == self@.diagnostic(),
    {
        match self {
            ManifestParseError::Syntax(m) => m.clone(),
            ManifestParseError::Missing(f) => String::from_str("missing field: ").concat(f.place()),
            ManifestParseError::Malformed(f) => String::from_str("wrong type of field: ").concat(
                f.place(),
            ),
            ManifestParseError::EmptyName => String::from_str("empty field: package.name"),
            ManifestParseError::MalformedDependency(n) => String::from_str(
                "neither a version nor a table of strings: dependencies.",
            ).concat(n.as_str()),
        }
    }
}

/// The string under `key`, which must be there.
pub open spec fn required_text(t: Map<Seq<char>, Node>, key: Seq<char>, field: Field) -> Result<
    Seq<char>,
    ErrorView,
> {
    if !t.contains_key(key) {
        Err(ErrorView::Missing(field))
    } else {
        match t[key] {
            Node::Text(s) => Ok(s),
            _ => Err(ErrorView::Malformed(field)),
        }
    }
}

/// The string under `key`, where the key is there.
pub open spec fn optional_text(t: Map<Seq<char>, Node>, key: Seq<char>, field: Field) -> Result<
    Option<Seq<char>>,
    ErrorView,
> {
    if !t.contains_key(key) {
        Ok(None)
    } else {
        match t[key] {
            Node::Text(s) => Ok(Some(s)),
            _ => Err(ErrorView::Malformed(field)),
        }
    }
}

/// Whether every one of `items` is a string.
pub open spec fn all_text(items: Seq<Node>) -> bool {
    forall|i: int| 0 <= i < items.len() ==> #[trigger] items[i] is Text
}

/// The strings of `items`, in order.
pub open spec fn texts_of(items: Seq<Node>) -> Seq<Seq<char>> {
    Seq::new(items.len(), |i: int| items[i]->Text_0)
}

/// The list of strings under `key`, where the key is there.
pub open spec fn optional_list(t: Map<Seq<char>, Node>, key: Seq<char>, field: Field) -> Result<
    Option<Seq<Seq<char>>>,
    ErrorView,
> {
    if !t.contains_key(key) {
        Ok(None)
    } else {
        match t[key] {
            Node::List(items) => if all_text(items) {
                Ok(Some(texts_of(items)))
            } else {
                Err(ErrorView::Malformed(field))
            },
            _ => Err(ErrorView::Malformed(field)),
        }
    }
}

/// The package that the table `t` describes. The name and the version must
/// be there, and the name must not be empty; absent authors are an empty
/// list. Where several places are at fault, the first in the order name,
/// version, authors, description, repository, keywords is reported.
pub open spec fn package_of(t: Map<Seq<char>, Node>) -> Result<PackageView, ErrorView> {
    match required_text(t, "name"@, Field::Name) {
        Err(e) => Err(e),
        Ok(name) => if name.len() == 0 {
            Err(ErrorView::EmptyName)
        } else {
            match required_text(t, "version"@, Field::Version) {
                Err(e) => Err(e),
                Ok(version) => match optional_list(t, "authors"@, Field::Authors) {
                    Err(e) => Err(e),
                    Ok(authors) => match optional_text(t, "description"@, Field::Description) {
                        Err(e) => Err(e),
                        Ok(description) => match optional_text(
                            t,
                            "repository"@,
                            Field::Repository,
                        ) {
                            Err(e) => Err(e),
                            Ok(repository) => match optional_list(
                                t,
                                "keywords"@,
                                Field::Keywords,
                            ) {
                                Err(e) => Err(e),
                                Ok(keywords) => Ok(
                                    PackageView {
                                        name,
                                        version,
                                        authors: match authors {
                                            Some(a) => a,
                                            None => Seq::empty(),
                                        },
                                        description,
                                        repository,
                                        keywords,
                                    },
                                ),
                            },
                        },
                    },
                },
            }
        },
    }
}

/// The string under `key` of a dependency's table: `Some(None)` where the key
/// is absent, `None` where it holds something that is no string.
pub open spec fn detail(t: Map<Seq<char>, Node>, key: Seq<char>) -> Option<Option<Seq<char>>> {
    if !t.contains_key(key) {
        Some(None)
    } else {
        match t[key] {
            Node::Text(s) => Some(Some(s)),
            _ => None,
        }
    }
}

/// The dependency reference that the value `n` is: a string is a bare
/// version; a table is a detailed reference if its `version`, `path` and
/// `git`, where present, are strings; anything else is none.
pub open spec fn dependency_of(n: Node) -> Option<DependencyView> {
    match n {
        Node::Text(s) => Some(DependencyView::Simple(s)),
        Node::Table(t) => match (detail(t, "version"@), detail(t, "path"@), detail(t, "git"@)) {
            (Some(version), Some(path), Some(git)) => Some(
                DependencyView::Detailed { version, path, git },
            ),
            _ => None,
        },
        _ => None,
    }
}

/// Whether `r` is the reading of the dependency table `t`: every entry as a
/// dependency reference, in ascending order of the names; or, where an entry
/// is no dependency reference, the error that names the first such entry.
pub open spec fn reads_dependencies(
    t: Map<Seq<char>, Node>,
    r: Result<Seq<(Seq<char>, DependencyView)>, ErrorView>,
) -> bool {
    match r {
        Ok(deps) => {
            &&& forall|i: int, j: int|
                0 <= i < j < deps.len() ==> text_lt(#[trigger] deps[i].0, #[trigger] deps[j].0)
            &&& forall|i: int|
                0 <= i < deps.len() ==> t.contains_key(#[trigger] deps[i].0) && dependency_of(
                    t[deps[i].0],
                ) == Some(deps[i].1)
            &&& forall|k: Seq<char>| #[trigger]
                t.contains_key(k) ==> exists|i: int| 0 <= i < deps.len() && deps[i].0 == k
        },
        Err(ErrorView::MalformedDependency(name)) => {
            &&& t.contains_key(name)
            &&& dependency_of(t[name]) is None
            &&& forall|k: Seq<char>| #[trigger]
                t.contains_key(k) && text_lt(k, name) ==> dependency_of(t[k]) is Some
        },
        Err(_) => false,
    }
}

/// Whether `r` is the reading of the document `doc` as a manifest. The
/// `package` table must be there; the `dependencies` table may be absent,
/// which leaves the manifest without dependencies. A fault in the package is
/// reported before one in the dependencies.
pub open spec fn reads_manifest(doc: Map<Seq<char>, Node>, r: Result<ManifestView, ErrorView>) -> bool {
    if !doc.contains_key("package"@) {
        r == Err::<ManifestView, ErrorView>(ErrorView::Missing(Field::Package))
    } else {
        match doc["package"@] {
            Node::Table(p) => match package_of(p) {
                Err(e) => r == Err::<ManifestView, ErrorView>(e),
                Ok(package) => if !doc.contains_key("dependencies"@) {
                    r == Ok::<ManifestView, ErrorView>(
                        ManifestView { package, dependencies: Seq::empty() },
                    )
                } else {
                    match doc["dependencies"@] {
                        Node::Table(d) => match r {
                            Ok(m) => m.package == package && reads_dependencies(
                                d,
                                Ok(m.dependencies),
                            ),
                            Err(e) => reads_dependencies(d, Err(e)),
                        },
                        _ => r == Err::<ManifestView, ErrorView>(
                            ErrorView::Malformed(Field::Dependencies),
                        ),
                    }
                },
            },
            _ => r == Err::<ManifestView, ErrorView>(ErrorView::Malformed(Field::Package)),
        }
    }
}

/// Whether `r` is the reading of the text `text` as a manifest: the parser's
/// diagnostic where it is no TOML document, else the reading of the document.
pub open spec fn reads_text(text: Seq<char>, r: Result<ManifestView, ErrorView>) -> bool {
    match document_of(text) {
        Ok(doc) => reads_manifest(doc, r),
        Err(m) => r == Err::<ManifestView, ErrorView>(ErrorView::Syntax(m)),
    }
}

/// The view of a parse result.
pub open spec fn result_view(r: Result<ManifestInfo, ManifestParseError>) -> Result<
    ManifestView,
    ErrorView,
> {
    match r {
        Ok(m) => Ok(m@),
        Err(e) => Err(e@),
    }
}

type Table = toml::map::Map<String, toml::Value>;

fn read_required_text(t: &Table, key: &str, field: Field) -> (r: Result<String, ManifestParseError>)
    ensures
        match required_text(entries_of(*t), key@, field) {
            Ok(s) => r is Ok && r->Ok_0@ == s,
            Err(e) => r is Err && r->Err_0@ == e,
        },
{
    match table_get(t, key) {
        None => Err(ManifestParseError::Missing(field)),
        Some(v) => match v.as_str() {
            Some(s) => Ok(String::from_str(s)),
            None => Err(ManifestParseError::Malformed(field)),
        },
    }
}

fn read_optional_text(t: &Table, key: &str, field: Field) -> (r: Result<
    Option<String>,
    ManifestParseError,
>)
    ensures
        match optional_text(entries_of(*t), key@, field) {
            Ok(o) => r is Ok && opt_text(r->Ok_0) == o,
            Err(e) => r is Err && r->Err_0@ == e,
        },
{
    match table_get(t, key) {
        None => Ok(None),
        Some(v) => match v.as_str() {
            Some(s) => Ok(Some(String::from_str(s))),
            None => Err(ManifestParseError::Malformed(field)),
        },
    }
}

fn read_optional_list(t: &Table, key: &str, field: Field) -> (r: Result<
    Option<Vec<String>>,
    ManifestParseError,
>)
    ensures
        match optional_list(entries_of(*t), key@, field) {
            Ok(o) => r is Ok && opt_texts(r->Ok_0) == o,
            Err(e) => r is Err && r->Err_0@ == e,
        },
{
    match table_get(t, key) {
        None => Ok(None),
        Some(v) => match v.as_array() {
            None => Err(ManifestParseError::Malformed(field)),
            Some(values) => {
                let ghost items = node_of(*v)->List_0;
                let mut list: Vec<String> = Vec::new();
                let mut i: usize = 0;
                while i < values.len()
                    invariant
                        i <= values.len(),
                        entries_of(*t).contains_key(key@),
                        entries_of(*t)[key@] == Node::List(items),
                        values@.len() == items.len(),
                        forall|j: int|
                            0 <= j < items.len() ==> node_of(#[trigger] values@[j]) == items[j],
                        list@.len() == i,
                        forall|j: int| 0 <= j < i ==> #[trigger] items[j] is Text,
                        forall|j: int| 0 <= j < i ==> (#[trigger] list@[j])@ == items[j]->Text_0,
                    decreases values.len() - i,
                {
                    match values[i].as_str() {
                        Some(s) => {
                            list.push(String::from_str(s));
                        },
                        None => {
                            assert(node_of(values@[i as int]) == items[i as int]);
                            assert(!(items[i as int] is Text));
                            return Err(ManifestParseError::Malformed(field));
                        },
                    }
                    i += 1;
                }
                assert(views(list@) =~= texts_of(items));
                Ok(Some(list))
            },
        },
    }
}

fn read_detail(t: &Table, key: &str) -> (r: Option<Option<String>>)
    ensures
        match detail(entries_of(*t), key@) {
            Some(o) => r is Some && opt_text(r->Some_0) == o,
            None => r is None,
        },
{
    match table_get(t, key) {
        None => Some(None),
        Some(v) => match v.as_str() {
            Some(s) => Some(Some(String::from_str(s))),
            None => None,
        },
    }
}

fn read_dependency(v: &toml::Value) -> (r: Option<DependencyInfo>)
    ensures
        match dependency_of(node_of(*v)) {
            Some(d) => r is Some && r->Some_0@ == d,
            None => r is None,
        },
{
    match v.as_str() {
        Some(s) => Some(DependencyInfo::Simple(String::from_str(s))),
        None => match v.as_table() {
            None => None,
            Some(t) => {
                let version = read_detail(t, "version");
                let path = read_detail(t, "path");
                let git = read_detail(t, "git");
                match (version, path, git) {
                    (Some(version), Some(path), Some(git)) => Some(
                        DependencyInfo::Detailed { version, path, git },
                    ),
                    _ => None,
                }
            },
        },
    }
}

fn read_package(t: &Table) -> (r: Result<PackageInfo, ManifestParseError>)
    ensures
        match package_of(entries_of(*t)) {
            Ok(p) => r is Ok && r->Ok_0@ == p,
            Err(e) => r is Err && r->Err_0@ == e,
        },
{
    let name = match read_required_text(t, "name", Field::Name) {
        Ok(name) => name,
        Err(e) => {
            return Err(e);
        },
    };
    if name.as_str().unicode_len() == 0 {
        return Err(ManifestParseError::EmptyName);
    }
    let version = match read_required_text(t, "version", Field::Version) {
        Ok(version) => version,
        Err(e) => {
            return Err(e);
        },
    };
    let authors = match read_optional_list(t, "authors", Field::Authors) {
        Ok(Some(authors)) => authors,
        Ok(None) => Vec::new(),
        Err(e) => {
            return Err(e);
        },
    };
    let description = match read_optional_text(t, "description", Field::Description) {
        Ok(description) => description,
        Err(e) => {
            return Err(e);
        },
    };
    let repository = match read_optional_text(t, "repository", Field::Repository) {
        Ok(repository) => repository,
        Err(e) => {
            return Err(e);
        },
    };
    let keywords = match read_optional_list(t, "keywords", Field::Keywords) {
        Ok(keywords) => keywords,
        Err(e) => {
            return Err(e);
        },
    };
    let package = PackageInfo { name, version, authors, description, repository, keywords };
    proof {
        let p = package_of(entries_of(*t))->Ok_0;
        assert(package@.authors =~= p.authors);
    }
    Ok(package)
}

fn read_dependencies(t: &Table) -> (r: Result<Vec<Dependency>, ManifestParseError>)
    ensures
        reads_dependencies(
            entries_of(*t),
            match r {
                Ok(deps) => Ok(dependency_views(deps@)),
                Err(e) => Err(e@),
            },
        ),
{
    let keys = sort_names(&table_keys(t));
    let ghost entries = entries_of(*t);
    let ghost names = views(keys@);
    let mut deps: Vec<Dependency> = Vec::new();
    let mut i: usize = 0;
    while i < keys.len()
        invariant
            i <= keys.len(),
            entries == entries_of(*t),
            names == views(keys@),
            ascending(names),
            forall|k: Seq<char>| names.contains(k) <==> entries.contains_key(k),
            deps@.len() == i,
            forall|j: int| 0 <= j < i ==> (#[trigger] deps@[j]).name@ == names[j],
            forall|j: int|
                0 <= j < i ==> dependency_of(entries[names[j]]) == Some((#[trigger] deps@[j]).info@),
        decreases keys.len() - i,
    {
        let key = &keys[i];
        let found = table_get(t, key.as_str());
        assert(names[i as int] == key@ && names.contains(key@));
        match read_dependency(found.unwrap()) {
            Some(info) => {
                deps.push(Dependency { name: key.clone(), info });
            },
            None => {
                proof {
                    let name = key@;
                    assert forall|k: Seq<char>| #[trigger]
                        entries.contains_key(k) && text_lt(k, name) implies dependency_of(
                        entries[k],
                    ) is Some by {
                        assert(names.contains(k));
                        let j = choose|j: int| 0 <= j < names.len() && names[j] == k;
                        if j > i {
                            assert(text_lt(names[i as int], names[j]));
                            lemma_text_lt_asymmetric(name, k);
                        } else if j == i {
                            lemma_text_lt_asymmetric(name, name);
                        } else {
                            assert(dependency_of(entries[names[j]]) == Some(deps@[j].info@));
                        }
                    }
                }
                return Err(ManifestParseError::MalformedDependency(key.clone()));
            },
        }
        i += 1;
    }
    proof {
        let listed = dependency_views(deps@);
        assert forall|a: int, b: int| 0 <= a < b < listed.len() implies text_lt(
            #[trigger] listed[a].0,
            #[trigger] listed[b].0,
        ) by {
            assert(text_lt(names[a], names[b]));
        }
        assert forall|j: int| 0 <= j < listed.len() implies entries.contains_key(
            #[trigger] listed[j].0,
        ) && dependency_of(entries[listed[j].0]) == Some(listed[j].1) by {
            assert(deps@[j].name@ == names[j]);
            assert(names.contains(names[j]));
        }
        assert forall|k: Seq<char>| #[trigger] entries.contains_key(k) implies exists|j: int|
            0 <= j < listed.len() && listed[j].0 == k by {
            assert(names.contains(k));
            let j = choose|j: int| 0 <= j < names.len() && names[j] == k;
            assert(listed[j].0 == k);
        }
    }
    Ok(deps)
}

impl ManifestInfo {
    /// Reads the manifest out of a parsed document.
    pub fn from_table(t: &Table) -> (r: Result<ManifestInfo, ManifestParseError>)
        ensures
            reads_manifest(entries_of(*t), result_view(r)),
            r is Ok ==> r->Ok_0@.well_formed(),
    {
        let package = match table_get(t, "package") {
            None => {
                return Err(ManifestParseError::Missing(Field::Package));
            },
            Some(v) => match v.as_table() {
                None => {
                    return Err(ManifestParseError::Malformed(Field::Package));
                },
                Some(p) => match read_package(p) {
                    Ok(package) => package,
                    Err(e) => {
                        return Err(e);
                    },
                },
            },
        };
        let dependencies = match table_get(t, "dependencies") {
            None => Vec::new(),
            Some(v) => match v.as_table() {
                None => {
                    return Err(ManifestParseError::Malformed(Field::Dependencies));
                },
                Some(d) => match read_dependencies(d) {
                    Ok(dependencies) => dependencies,
                    Err(e) => {
                        return Err(e);
                    },
                },
            },
        };
        let manifest = ManifestInfo { package, dependencies };
        proof {
            if !entries_of(*t).contains_key("dependencies"@) {
                assert(manifest@.dependencies =~= Seq::empty());
            }
        }
        Ok(manifest)
    }

    /// Reads the manifest out of its text.
    pub fn parse(text: &str) -> (r: Result<ManifestInfo, ManifestParseError>)
        ensures
            reads_text(text@, result_view(r)),
            r is Ok ==> r->Ok_0@.well_formed(),
    {
        match parse_document(text) {
            Ok(t) => ManifestInfo::from_table(&t),
            Err(e) => Err(ManifestParseError::Syntax(diagnostic(&e))),
        }
    }
}

/// The names of `deps`, in order.
pub open spec fn names_of(deps: Seq<(Seq<char>, DependencyView)>) -> Seq<Seq<char>> {
    Seq::new(deps.len(), |i: int| deps[i].0)
}

/// A dependency table has one reading only.
pub proof fn lemma_dependencies_read_one_way(
    t: Map<Seq<char>, Node>,
    a: Result<Seq<(Seq<char>, DependencyView)>, ErrorView>,
    b: Result<Seq<(Seq<char>, DependencyView)>, ErrorView>,
)
    requires
        reads_dependencies(t, a),
        reads_dependencies(t, b),
    ensures
        a == b,
{
    match (a, b) {
        (Ok(x), Ok(y)) => {
            let nx = names_of(x);
            let ny = names_of(y);
            assert(ascending(nx)) by {
                assert forall|i: int, j: int| 0 <= i < j < nx.len() implies text_lt(
                    #[trigger] nx[i],
                    #[trigger] nx[j],
                ) by {
                    assert(text_lt(x[i].0, x[j].0));
                }
            }
            assert(ascending(ny)) by {
                assert forall|i: int, j: int| 0 <= i < j < ny.len() implies text_lt(
                    #[trigger] ny[i],
                    #[trigger] ny[j],
                ) by {
                    assert(text_lt(y[i].0, y[j].0));
                }
            }
            assert forall|k: Seq<char>| nx.contains(k) <==> ny.contains(k) by {
                if nx.contains(k) {
                    let i = choose|i: int| 0 <= i < nx.len() && nx[i] == k;
                    assert(t.contains_key(x[i].0));
                    let j = choose|j: int| 0 <= j < y.len() && y[j].0 == k;
                    assert(ny[j] == k);
                }
                if ny.contains(k) {
                    let i = choose|i: int| 0 <= i < ny.len() && ny[i] == k;
                    assert(t.contains_key(y[i].0));
                    let j = choose|j: int| 0 <= j < x.len() && x[j].0 == k;
                    assert(nx[j] == k);
                }
            }
            lemma_ascending_is_unique(nx, ny);
            assert(x.len() == nx.len() && y.len() == ny.len());
            assert forall|i: int| 0 <= i < x.len() implies x[i] == y[i] by {
                assert(nx[i] == ny[i]);
                assert(t.contains_key(x[i].0) && dependency_of(t[x[i].0]) == Some(x[i].1));
                assert(t.contains_key(y[i].0) && dependency_of(t[y[i].0]) == Some(y[i].1));
            }
            assert(x =~= y);
        },
        (Ok(x), Err(ErrorView::MalformedDependency(name))) => {
            let i = choose|i: int| 0 <= i < x.len() && x[i].0 == name;
            assert(t.contains_key(x[i].0) && dependency_of(t[x[i].0]) == Some(x[i].1));
        },
        (Err(ErrorView::MalformedDependency(name)), Ok(y)) => {
            let i = choose|i: int| 0 <= i < y.len() && y[i].0 == name;
            assert(t.contains_key(y[i].0) && dependency_of(t[y[i].0]) == Some(y[i].1));
        },
        (Err(ErrorView::MalformedDependency(m)), Err(ErrorView::MalformedDependency(n))) => {
            if m != n {
                lemma_text_lt_total(m, n);
            }
        },
        _ => {},
    }
}

/// A document has one reading as a manifest only.
pub proof fn lemma_manifest_reads_one_way(
    doc: Map<Seq<char>, Node>,
    a: Result<ManifestView, ErrorView>,
    b: Result<ManifestView, ErrorView>,
)
    requires
        reads_manifest(doc, a),
        reads_manifest(doc, b),
    ensures
        a == b,
{
    if doc.contains_key("package"@) && doc.contains_key("dependencies"@) {
        match (doc["package"@], doc["dependencies"@]) {
            (Node::Table(p), Node::Table(d)) => {
                if package_of(p) is Ok {
                    let da = match a {
                        Ok(m) => Ok(m.dependencies),
                        Err(e) => Err(e),
                    };
                    let db = match b {
                        Ok(m) => Ok(m.dependencies),
                        Err(e) => Err(e),
                    };
                    lemma_dependencies_read_one_way(d, da, db);
                }
            },
            _ => {},
        }
    }
}

/// A text has one reading as a manifest only: the contract of
/// `ManifestInfo::parse` leaves no choice.
pub proof fn lemma_text_reads_one_way(
    text: Seq<char>,
    a: Result<ManifestView, ErrorView>,
    b: Result<ManifestView, ErrorView>,
)
    requires
        reads_text(text, a),
        reads_text(text, b),
    ensures
        a == b,
{
    match document_of(text) {
        Ok(doc) => {
            lemma_manifest_reads_one_way(doc, a, b);
        },
        Err(_) => {},
    }
}

} // verus!
