//! The manifest model: a package, its dependencies, and what the registry
//! knows of a crate.

use vstd::prelude::*;
use crate::ordering::text_lt;
use crate::text::views;

verus! {

/// The text of an optional string.
pub open spec fn opt_text(o: Option<String>) -> Option<Seq<char>> {
    match o {
        Some(s) => Some(s@),
        None => None,
    }
}

/// The texts of an optional list of strings.
pub open spec fn opt_texts(o: Option<Vec<String>>) -> Option<Seq<Seq<char>>> {
    match o {
        Some(v) => Some(views(v@)),
        None => None,
    }
}

/// The `[package]` section of a manifest.
pub struct PackageInfo {
    pub name: String,
    pub version: String,
    pub authors: Vec<String>,
    pub description: Option<String>,
    pub repository: Option<String>,
    pub keywords: Option<Vec<String>>,
}

/// A package as plain text values.
pub struct PackageView {
    pub name: Seq<char>,
    pub version: Seq<char>,
    pub authors: Seq<Seq<char>>,
    pub description: Option<Seq<char>>,
    pub repository: Option<Seq<char>>,
    pub keywords: Option<Seq<Seq<char>>>,
}

impl View for PackageInfo {
    type V = PackageView;

    open spec fn view(&self) -> PackageView {
        PackageView {
            name: self.name@,
            version: self.version@,
            authors: views(self.authors@),
            description: opt_text(self.description),
            repository: opt_text(self.repository),
            keywords: opt_texts(self.keywords),
        }
    }
}

/// How a manifest names one dependency: by a bare version string, or by a
/// table with an optional version, local path and git locator.
pub enum DependencyInfo {
    Simple(String),
    Detailed { version: Option<String>, path: Option<String>, git: Option<String> },
}

/// A dependency reference as plain text values.
pub enum DependencyView {
    Simple(Seq<char>),
    Detailed { version: Option<Seq<char>>, path: Option<Seq<char>>, git: Option<Seq<char>> },
}

impl DependencyView {
    /// The version that the reference declares.
    pub open spec fn version(self) -> Option<Seq<char>> {
        match self {
            DependencyView::Simple(v) => Some(v),
            DependencyView::Detailed { version, .. } => version,
        }
    }

    /// The local path and the git locator that the reference declares.
    pub open spec fn source_info(self) -> (Option<Seq<char>>, Option<Seq<char>>) {
        match self {
            DependencyView::Simple(_) => (None, None),
            DependencyView::Detailed { path, git, .. } => (path, git),
        }
    }

    /// Where the dependency comes from. A path that is present decides, also
    /// beside a git locator; then a git locator; with neither, the registry.
    pub open spec fn source(self) -> SourceView {
        match self.source_info() {
            (Some(path), _) => SourceView::LocalPath(path),
            (None, Some(git)) => SourceView::VersionControl(git),
            (None, None) => SourceView::Registry,
        }
    }
}

impl View for DependencyInfo {
    type V = DependencyView;

    open spec fn view(&self) -> DependencyView {
        match *self {
            DependencyInfo::Simple(v) => DependencyView::Simple(v@),
            DependencyInfo::Detailed { version, path, git } => DependencyView::Detailed {
                version: opt_text(version),
                path: opt_text(path),
                git: opt_text(git),
            },
        }
    }
}

/// Where a dependency comes from.
pub enum DependencySource {
    Registry,
    LocalPath(String),
    VersionControl(String),
}

/// A dependency's source as plain text values.
pub enum SourceView {
    Registry,
    LocalPath(Seq<char>),
    VersionControl(Seq<char>),
}

impl View for DependencySource {
    type V = SourceView;

    open spec fn view(&self) -> SourceView {
        match *self {
            DependencySource::Registry => SourceView::Registry,
            DependencySource::LocalPath(p) => SourceView::LocalPath(p@),
            DependencySource::VersionControl(g) => SourceView::VersionControl(g@),
        }
    }
}

fn clone_opt(o: &Option<String>) -> (r: Option<String>)
    ensures
        opt_text(r) == opt_text(*o),
{
    match o {
        Some(s) => Some(s.clone()),
        None => None,
    }
}

impl DependencyInfo {
    /// The version that the manifest declares for the dependency, if any.
    pub fn get_version(&self) -> (r: Option<String>)
        ensures
            opt_text(r) == self@.version(),
    {
        match self {
            DependencyInfo::Simple(v) => Some(v.clone()),
            DependencyInfo::Detailed { version, .. } => clone_opt(version),
        }
    }

    /// The local path and the git locator of the dependency, each if declared.
    pub fn get_source_info(&self) -> (r: (Option<String>, Option<String>))
        ensures
            (opt_text(r.0), opt_text(r.1)) == self@.source_info(),
    {
        match self {
            DependencyInfo::Simple(_) => (None, None),
            DependencyInfo::Detailed { path, git, .. } => (clone_opt(path), clone_opt(git)),
        }
    }

    /// Classifies the dependency by where it comes from.
    pub fn classify(&self) -> (r: DependencySource)
        ensures
            r@ == self@.source(),
    {
        let (path, git) = self.get_source_info();
        match path {
            Some(p) => DependencySource::LocalPath(p),
            None => match git {
                Some(g) => DependencySource::VersionControl(g),
                None => DependencySource::Registry,
            },
        }
    }
}

/// A dependency with both a path and a git locator is a local path
/// dependency: the path wins.
pub proof fn lemma_path_wins(
    version: Option<Seq<char>>,
    path: Seq<char>,
    git: Option<Seq<char>>,
)
    ensures
        (DependencyView::Detailed { version, path: Some(path), git }).source()
            == SourceView::LocalPath(path),
{
}

/// A dependency with a git locator and no path is a version-control
/// dependency.
pub proof fn lemma_git_alone_is_version_control(version: Option<Seq<char>>, git: Seq<char>)
    ensures
        (DependencyView::Detailed { version, path: None, git: Some(git) }).source()
            == SourceView::VersionControl(git),
{
}

/// A dependency given by a bare version string, or by a table with neither
/// path nor git locator, comes from the registry.
pub proof fn lemma_plain_is_registry(version: Seq<char>, declared: Option<Seq<char>>)
    ensures
        DependencyView::Simple(version).source() == SourceView::Registry,
        (DependencyView::Detailed { version: declared, path: None, git: None }).source()
            == SourceView::Registry,
{
}

/// One entry of a manifest's dependency table.
pub struct Dependency {
    pub name: String,
    pub info: DependencyInfo,
}

/// A manifest: the package and its dependencies, ordered by name.
pub struct ManifestInfo {
    pub package: PackageInfo,
    pub dependencies: Vec<Dependency>,
}

/// A manifest as plain text values.
pub struct ManifestView {
    pub package: PackageView,
    pub dependencies: Seq<(Seq<char>, DependencyView)>,
}

/// The name and reference of each dependency of `deps`, in order.
pub open spec fn dependency_views(deps: Seq<Dependency>) -> Seq<(Seq<char>, DependencyView)> {
    Seq::new(deps.len(), |i: int| (deps[i].name@, deps[i].info@))
}

impl View for ManifestInfo {
    type V = ManifestView;

    open spec fn view(&self) -> ManifestView {
        ManifestView {
            package: self.package@,
            dependencies: dependency_views(self.dependencies@),
        }
    }
}

impl ManifestView {
    /// The package has a name, and the dependencies stand in ascending order
    /// of their names, so that no name occurs twice.
    pub open spec fn well_formed(self) -> bool {
        &&& self.package.name.len() > 0
        &&& forall|i: int, j: int|
            0 <= i < j < self.dependencies.len() ==> text_lt(
                #[trigger] self.dependencies[i].0,
                #[trigger] self.dependencies[j].0,
            )
    }
}

/// What the registry knows of a crate.
pub struct CrateInfo {
    pub description: Option<String>,
    pub repository: Option<String>,
    pub homepage: Option<String>,
    pub authors: Option<Vec<String>>,
}

/// Registry metadata as plain text values.
pub struct CrateView {
    pub description: Option<Seq<char>>,
    pub repository: Option<Seq<char>>,
    pub homepage: Option<Seq<char>>,
    pub authors: Option<Seq<Seq<char>>>,
}

impl View for CrateInfo {
    type V = CrateView;

    open spec fn view(&self) -> CrateView {
        CrateView {
            description: opt_text(self.description),
            repository: opt_text(self.repository),
            homepage: opt_text(self.homepage),
            authors: opt_texts(self.authors),
        }
    }
}

} // verus!
