//! BibTeX records: one for a package, one for each of its dependencies.

use vstd::prelude::*;
use vstd::string::*;
use crate::clock::current_month_and_year;
use crate::model::{
    opt_text, CrateInfo, CrateView, Dependency, DependencySource, DependencyView, ManifestInfo,
    PackageInfo, PackageView, SourceView,
};
use crate::text::{
    decimal, decimal_string, join, join_strings, signed_decimal, signed_decimal_string,
};

verus! {

/// The value of a package's `title` field: the name, then the description
/// behind a colon where there is one.
pub open spec fn title_text(p: PackageView) -> Seq<char> {
    match p.description {
        Some(d) => p.name + (": "@ + d),
        None => p.name,
    }
}

/// A line that is written only where its value is there: `prefix`, the
/// value and `suffix`, or nothing.
pub open spec fn optional_line(prefix: Seq<char>, value: Option<Seq<char>>, suffix: Seq<char>) -> Seq<
    char,
> {
    match value {
        Some(v) => prefix + v + suffix,
        None => Seq::empty(),
    }
}

/// The `url` line of a record, present where a URL is.
pub open spec fn url_line(url: Option<Seq<char>>) -> Seq<char> {
    optional_line("\turl = {"@, url, "},\n"@)
}

/// The `keywords` line of a package record, present where keywords are.
pub open spec fn keywords_line(keywords: Option<Seq<Seq<char>>>) -> Seq<char> {
    match keywords {
        Some(k) => "\tkeywords = {"@ + join(k, ", "@) + "}\n"@,
        None => Seq::empty(),
    }
}

/// The first line of a record, which holds the entry key.
pub open spec fn entry_line(key: Seq<char>) -> Seq<char> {
    "@misc{"@ + key + ",\n"@
}

/// The record of package `p`, dated `month` and `year`.
pub open spec fn package_record(p: PackageView, month: nat, year: int) -> Seq<char> {
    entry_line(p.name)
        + ("\ttitle={"@ + title_text(p) + "},\n"@)
        + ("\tauthor={"@ + join(p.authors, " and "@) + "},\n"@)
        + ("\tversion = {"@ + p.version + "},\n"@)
        + ("\tmonth = "@ + decimal(month) + ",\n"@)
        + ("\tyear = "@ + signed_decimal(year) + ",\n"@)
        + url_line(p.repository)
        + keywords_line(p.keywords)
        + "}\n"@
}

/// The section that is appended to a README.
pub open spec fn readme_section_text() -> Seq<char> {
    "\n## Citing\n\nIf you found this software useful consider citing it. See CITATION.bib for the recommended BibTeX entry.\n"@
}

/// Appends `prefix`, `value` and `suffix` to `out`.
fn push_field(out: &mut String, prefix: &str, value: &str, suffix: &str)
    ensures
        final(out)@ == old(out)@ + (prefix@ + value@ + suffix@),
{
    out.append(prefix);
    out.append(value);
    out.append(suffix);
    assert(out@ =~= old(out)@ + (prefix@ + value@ + suffix@));
}

/// Appends `prefix`, the value and `suffix` to `out` where the value is
/// there, and nothing where it is not.
fn push_optional_line(out: &mut String, prefix: &str, value: &Option<String>, suffix: &str)
    ensures
        final(out)@ == old(out)@ + optional_line(prefix@, opt_text(*value), suffix@),
{
    match value {
        Some(v) => {
            push_field(out, prefix, v.as_str(), suffix);
        },
        None => {
            assert(out@ =~= old(out)@ + Seq::<char>::empty());
        },
    }
}

impl PackageInfo {
    /// The record of this package, dated `month` and `year`.
    pub fn build_bibtex_at(&self, month: u32, year: i32) -> (r: String)
        ensures
            r@ == package_record(self@, month as nat, year as int),
    {
        let mut title = self.name.clone();
        match &self.description {
            Some(d) => {
                let mut part = String::from_str(": ");
                part.append(d.as_str());
                title.append(part.as_str());
            },
            None => {},
        }
        let authors = join_strings(&self.authors, " and ");
        let month_text = decimal_string(month as u64);
        let year_text = signed_decimal_string(year);

        let mut out = String::new();
        push_field(&mut out, "@misc{", self.name.as_str(), ",\n");
        assert(out@ =~= entry_line(self@.name));
        push_field(&mut out, "\ttitle={", title.as_str(), "},\n");
        push_field(&mut out, "\tauthor={", authors.as_str(), "},\n");
        push_field(&mut out, "\tversion = {", self.version.as_str(), "},\n");
        push_field(&mut out, "\tmonth = ", month_text.as_str(), ",\n");
        push_field(&mut out, "\tyear = ", year_text.as_str(), ",\n");
        push_optional_line(&mut out, "\turl = {", &self.repository, "},\n");
        match &self.keywords {
            Some(k) => {
                let joined = join_strings(k, ", ");
                push_field(&mut out, "\tkeywords = {", joined.as_str(), "}\n");
            },
            None => {
                assert(out@ =~= out@ + Seq::<char>::empty());
            },
        }
        out.append("}\n");
        out
    }

    /// The record of this package, dated with today's month and year.
    pub fn build_bibtex(&self) -> (r: String)
        ensures
            exists|month: nat, year: int|
                1 <= month <= 12 && i32::MIN <= year <= i32::MAX && r@ == #[trigger] package_record(
                    self@,
                    month,
                    year,
                ),
    {
        let (month, year) = current_month_and_year();
        self.build_bibtex_at(month, year)
    }

    /// The section that is appended to a README: a heading and one sentence
    /// that points to the citation file.
    pub fn readme_section(&self) -> (r: String)
        ensures
            r@ == readme_section_text(),
    {
        String::from_str(
            "\n## Citing\n\nIf you found this software useful consider citing it. See CITATION.bib for the recommended BibTeX entry.\n",
        )
    }
}

/// A record without description, repository and keywords holds the six
/// fields that every record has, in their order, and the closing brace; with
/// a repository, the `url` line stands between the year and the brace.
pub proof fn lemma_record_without_optional_lines(p: PackageView, month: nat, year: int)
    requires
        p.description is None,
        p.keywords is None,
    ensures
        package_record(p, month, year) == entry_line(p.name) + ("\ttitle={"@ + p.name + "},\n"@) + (
        "\tauthor={"@ + join(p.authors, " and "@) + "},\n"@) + ("\tversion = {"@ + p.version
            + "},\n"@) + ("\tmonth = "@ + decimal(month) + ",\n"@) + ("\tyear = "@ + signed_decimal(
            year,
        ) + ",\n"@) + url_line(p.repository) + "}\n"@,
{
    let head = entry_line(p.name) + ("\ttitle={"@ + p.name + "},\n"@) + ("\tauthor={"@ + join(
        p.authors,
        " and "@,
    ) + "},\n"@) + ("\tversion = {"@ + p.version + "},\n"@) + ("\tmonth = "@ + decimal(month)
        + ",\n"@) + ("\tyear = "@ + signed_decimal(year) + ",\n"@) + url_line(p.repository);
    assert(head + Seq::<char>::empty() =~= head);
}

/// The record of a package begins with its name as the entry key, and the
/// value of its `title` field begins with the name again.
pub proof fn lemma_record_names_the_package(p: PackageView, month: nat, year: int)
    ensures
        (entry_line(p.name) + "\ttitle={"@ + p.name).is_prefix_of(package_record(p, month, year)),
        ("@misc{"@ + p.name).is_prefix_of(entry_line(p.name)),
        p.name.is_prefix_of(title_text(p)),
{
    let start = entry_line(p.name) + "\ttitle={"@ + p.name;
    let record = package_record(p, month, year);
    let tail = match p.description {
        Some(d) => ": "@ + d,
        None => Seq::<char>::empty(),
    };
    let rest = tail + "},\n"@ + ("\tauthor={"@ + join(p.authors, " and "@) + "},\n"@) + (
    "\tversion = {"@ + p.version + "},\n"@) + ("\tmonth = "@ + decimal(month) + ",\n"@) + (
    "\tyear = "@ + signed_decimal(year) + ",\n"@) + url_line(p.repository) + keywords_line(
        p.keywords,
    ) + "}\n"@;
    assert(title_text(p) =~= p.name + tail);
    assert(record =~= start + rest);
    assert(start =~= (start + rest).subrange(0, start.len() as int));
    assert(("@misc{"@ + p.name) =~= entry_line(p.name).subrange(0, ("@misc{"@ + p.name).len() as int));
    assert(p.name =~= title_text(p).subrange(0, p.name.len() as int));
}

/// The `author` line of a dependency's record: written where the registry
/// names at least one author.
pub open spec fn author_line(authors: Option<Seq<Seq<char>>>) -> Seq<char> {
    match authors {
        Some(a) => if a.len() > 0 {
            "\tauthor = {"@ + join(a, " and "@) + "},\n"@
        } else {
            Seq::empty()
        },
        None => Seq::empty(),
    }
}

/// The URL that the registry gives for a crate: the repository, or the
/// homepage where it names no repository.
pub open spec fn registry_url(m: CrateView) -> Option<Seq<char>> {
    match m.repository {
        Some(r) => Some(r),
        None => m.homepage,
    }
}

/// The lines that the registry's answer adds to a record: the description
/// as a note, the authors, and a URL, each where it is there.
pub open spec fn registry_lines(m: CrateView) -> Seq<char> {
    optional_line("\tnote = {"@, m.description, "},\n"@) + author_line(m.authors) + url_line(
        registry_url(m),
    )
}

/// The lines of a record that say where the dependency comes from. For one
/// of the registry they are what the lookup added, and nothing where the
/// lookup failed.
pub open spec fn source_lines(source: SourceView, lookup: Option<CrateView>) -> Seq<char> {
    match source {
        SourceView::LocalPath(p) => "\tnote = {Local dependency from path: "@ + p + "},\n"@,
        SourceView::VersionControl(g) => ("\turl = {"@ + g + "},\n"@)
            + "\tnote = {Git dependency},\n"@,
        SourceView::Registry => match lookup {
            Some(m) => registry_lines(m),
            None => Seq::empty(),
        },
    }
}

/// The `howpublished` line, which only a dependency of the registry has.
pub open spec fn published_line(name: Seq<char>, source: SourceView) -> Seq<char> {
    if source is Registry {
        "\thowpublished = {https://crates.io/crates/"@ + name + "},\n"@
    } else {
        Seq::empty()
    }
}

/// The record of the dependency `name`, declared as `dep`, with the
/// registry's answer `lookup`, dated `month` and `year`. Its key is the name
/// behind `rust-`; the version is the one that the manifest declares.
pub open spec fn dependency_record(
    name: Seq<char>,
    dep: DependencyView,
    lookup: Option<CrateView>,
    month: nat,
    year: int,
) -> Seq<char> {
    entry_line("rust-"@ + name)
        + ("\ttitle={"@ + name + "},\n"@)
        + source_lines(dep.source(), lookup)
        + optional_line("\tversion = {"@, dep.version(), "},\n"@)
        + ("\tyear = "@ + signed_decimal(year) + ",\n"@)
        + ("\tmonth = "@ + decimal(month) + ",\n"@)
        + published_line(name, dep.source())
        + "}\n\n"@
}

/// The view of a registry answer that may be absent.
pub open spec fn lookup_view(lookup: Option<&CrateInfo>) -> Option<CrateView> {
    match lookup {
        Some(m) => Some(m@),
        None => None,
    }
}

/// The registry's answers as plain values.
pub open spec fn lookup_views(lookups: Seq<Option<CrateInfo>>) -> Seq<Option<CrateView>> {
    Seq::new(
        lookups.len(),
        |i: int|
            match lookups[i] {
                Some(m) => Some(m@),
                None => None,
            },
    )
}

/// The answer for the dependency at place `i`; a place without an answer
/// counts as a failed lookup.
pub open spec fn lookup_at(lookups: Seq<Option<CrateView>>, i: int) -> Option<CrateView> {
    if 0 <= i < lookups.len() {
        lookups[i]
    } else {
        None
    }
}

/// The records of `deps` one after the other, in order, the one at place `i`
/// with the answer at place `i` and dated `dates[i]` (month, year).
pub open spec fn dependency_records(
    deps: Seq<(Seq<char>, DependencyView)>,
    lookups: Seq<Option<CrateView>>,
    dates: Seq<(nat, int)>,
) -> Seq<char>
    recommends
        dates.len() >= deps.len(),
    decreases deps.len(),
{
    if deps.len() == 0 {
        Seq::empty()
    } else {
        let last = deps.len() - 1;
        dependency_records(deps.drop_last(), lookups, dates) + dependency_record(
            deps[last].0,
            deps[last].1,
            lookup_at(lookups, last),
            dates[last].0,
            dates[last].1,
        )
    }
}

/// Whether every one of `dates` is a month between 1 and 12 with a year that
/// a 32-bit integer holds.
pub open spec fn calendar_dates(dates: Seq<(nat, int)>) -> bool {
    forall|i: int|
        0 <= i < dates.len() ==> 1 <= (#[trigger] dates[i]).0 <= 12 && i32::MIN <= dates[i].1
            <= i32::MAX
}

/// The names to look up in the registry: for each of `deps`, in order, its
/// name where it comes from the registry, and nothing where it does not.
pub open spec fn lookup_names(deps: Seq<(Seq<char>, DependencyView)>) -> Seq<Option<Seq<char>>> {
    Seq::new(
        deps.len(),
        |i: int|
            if deps[i].1.source() is Registry {
                Some(deps[i].0)
            } else {
                None
            },
    )
}

fn push_registry_lines(out: &mut String, m: &CrateInfo)
    ensures
        final(out)@ == old(out)@ + registry_lines(m@),
{
    let ghost start = out@;
    push_optional_line(out, "\tnote = {", &m.description, "},\n");
    let ghost noted = out@;
    match &m.authors {
        Some(authors) => {
            if authors.len() > 0 {
                let joined = join_strings(authors, " and ");
                push_field(out, "\tauthor = {", joined.as_str(), "},\n");
            } else {
                assert(out@ =~= noted + Seq::<char>::empty());
            }
        },
        None => {
            assert(out@ =~= noted + Seq::<char>::empty());
        },
    }
    assert(out@ == noted + author_line(m@.authors));
    match &m.repository {
        Some(_) => {
            push_optional_line(out, "\turl = {", &m.repository, "},\n");
        },
        None => {
            push_optional_line(out, "\turl = {", &m.homepage, "},\n");
        },
    }
    assert(out@ =~= start + registry_lines(m@));
}

impl Dependency {
    /// The record of this dependency with the registry's answer `lookup`
    /// (`None` for a failed lookup, and for a dependency that is not of the
    /// registry, where it is not read), dated `month` and `year`.
    pub fn build_bibtex_at(&self, lookup: Option<&CrateInfo>, month: u32, year: i32) -> (r: String)
        ensures
            r@ == dependency_record(
                self.name@,
                self.info@,
                lookup_view(lookup),
                month as nat,
                year as int,
            ),
    {
        let source = self.info.classify();
        let version = self.info.get_version();
        let month_text = decimal_string(month as u64);
        let year_text = signed_decimal_string(year);
        let mut key = String::from_str("rust-");
        key.append(self.name.as_str());

        let mut out = String::new();
        push_field(&mut out, "@misc{", key.as_str(), ",\n");
        assert(out@ =~= entry_line("rust-"@ + self.name@));
        push_field(&mut out, "\ttitle={", self.name.as_str(), "},\n");
        let ghost titled = out@;
        match &source {
            DependencySource::LocalPath(p) => {
                push_field(&mut out, "\tnote = {Local dependency from path: ", p.as_str(), "},\n");
            },
            DependencySource::VersionControl(g) => {
                push_field(&mut out, "\turl = {", g.as_str(), "},\n");
                out.append("\tnote = {Git dependency},\n");
                assert(out@ =~= titled + source_lines(source@, lookup_view(lookup)));
            },
            DependencySource::Registry => match lookup {
                Some(m) => {
                    push_registry_lines(&mut out, m);
                },
                None => {
                    assert(out@ =~= titled + Seq::<char>::empty());
                },
            },
        }
        assert(out@ == titled + source_lines(source@, lookup_view(lookup)));
        push_optional_line(&mut out, "\tversion = {", &version, "},\n");
        push_field(&mut out, "\tyear = ", year_text.as_str(), ",\n");
        push_field(&mut out, "\tmonth = ", month_text.as_str(), ",\n");
        match &source {
            DependencySource::Registry => {
                push_field(
                    &mut out,
                    "\thowpublished = {https://crates.io/crates/",
                    self.name.as_str(),
                    "},\n",
                );
            },
            _ => {
                assert(out@ =~= out@ + Seq::<char>::empty());
            },
        }
        out.append("}\n\n");
        out
    }

    /// The record of this dependency with the registry's answer `lookup`,
    /// dated with today's month and year.
    pub fn build_bibtex(&self, lookup: Option<&CrateInfo>) -> (r: String)
        ensures
            exists|month: nat, year: int|
                1 <= month <= 12 && i32::MIN <= year <= i32::MAX && r@
                    == #[trigger] dependency_record(
                    self.name@,
                    self.info@,
                    lookup_view(lookup),
                    month,
                    year,
                ),
    {
        let (month, year) = current_month_and_year();
        self.build_bibtex_at(lookup, month, year)
    }
}

impl ManifestInfo {
    /// The names to look up in the registry, one place for each dependency
    /// in order: the name of a dependency of the registry, and nothing for
    /// one that comes from a local path or from version control.
    pub fn registry_lookups(&self) -> (r: Vec<Option<String>>)
        ensures
            Seq::new(r@.len(), |i: int| opt_text(r@[i])) == lookup_names(self@.dependencies),
    {
        let mut names: Vec<Option<String>> = Vec::new();
        let mut i: usize = 0;
        while i < self.dependencies.len()
            invariant
                i <= self.dependencies.len(),
                names@.len() == i,
                forall|j: int|
                    0 <= j < i ==> opt_text(#[trigger] names@[j]) == lookup_names(
                        self@.dependencies,
                    )[j],
            decreases self.dependencies.len() - i,
        {
            let dep = &self.dependencies[i];
            match dep.info.classify() {
                DependencySource::Registry => {
                    names.push(Some(dep.name.clone()));
                },
                _ => {
                    names.push(None);
                },
            }
            i += 1;
        }
        assert(Seq::new(names@.len(), |i: int| opt_text(names@[i])) =~= lookup_names(
            self@.dependencies,
        ));
        names
    }

    /// The records of all dependencies, in their order, each dated with the
    /// month and year of the moment at which it is written. `lookups` holds
    /// the registry's answers by place, as `registry_lookups` asks for them.
    pub fn build_dependencies_bibtex(&self, lookups: &Vec<Option<CrateInfo>>) -> (r: String)
        ensures
            exists|dates: Seq<(nat, int)>|
                dates.len() == self@.dependencies.len() && calendar_dates(dates) && r@
                    == #[trigger] dependency_records(
                    self@.dependencies,
                    lookup_views(lookups@),
                    dates,
                ),
    {
        let mut out = String::new();
        let ghost mut dates: Seq<(nat, int)> = Seq::empty();
        let ghost deps = self@.dependencies;
        let ghost answers = lookup_views(lookups@);
        let mut i: usize = 0;
        while i < self.dependencies.len()
            invariant
                i <= self.dependencies.len(),
                deps == self@.dependencies,
                deps.len() == self.dependencies@.len(),
                answers == lookup_views(lookups@),
                dates.len() == i,
                calendar_dates(dates),
                out@ == dependency_records(deps.take(i as int), answers, dates),
            decreases self.dependencies.len() - i,
        {
            let lookup = if i < lookups.len() {
                lookups[i].as_ref()
            } else {
                None
            };
            let record = self.dependencies[i].build_bibtex(lookup);
            proof {
                assert(lookup_view(lookup) == lookup_at(answers, i as int));
                assert(deps[i as int] == (self.dependencies@[i as int].name@, self.dependencies@[i as int].info@));
                let (month, year) = choose|month: nat, year: int|
                    1 <= month <= 12 && i32::MIN <= year <= i32::MAX && record@
                        == #[trigger] dependency_record(
                        self.dependencies@[i as int].name@,
                        self.dependencies@[i as int].info@,
                        lookup_view(lookup),
                        month,
                        year,
                    );
                let date = (month, year);
                let before = dates;
                dates = dates.push(date);
                lemma_records_ignore_later_dates(deps.take(i as int), answers, before, dates);
                assert(deps.take(i + 1).drop_last() =~= deps.take(i as int));
            }
            out.append(record.as_str());
            i += 1;
        }
        proof {
            assert(deps.take(i as int) =~= deps);
        }
        out
    }
}

/// The records of `deps` read only the first `deps.len()` of the dates.
pub proof fn lemma_records_ignore_later_dates(
    deps: Seq<(Seq<char>, DependencyView)>,
    lookups: Seq<Option<CrateView>>,
    a: Seq<(nat, int)>,
    b: Seq<(nat, int)>,
)
    requires
        a.len() >= deps.len(),
        b.len() >= deps.len(),
        forall|i: int| 0 <= i < deps.len() ==> a[i] == b[i],
    ensures
        dependency_records(deps, lookups, a) == dependency_records(deps, lookups, b),
    decreases deps.len(),
{
    if deps.len() > 0 {
        lemma_records_ignore_later_dates(deps.drop_last(), lookups, a, b);
    }
}

} // verus!
