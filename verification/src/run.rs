//! The decisions of a run: where to look, what to do for each manifest,
//! where the output goes, and what the summary says.

use vstd::prelude::*;
use vstd::string::*;
use crate::citation::{package_record, readme_section_text};
use crate::locate::{depth_limit, walk_limit};
use crate::model::ManifestInfo;
use crate::parse::{reads_text, ManifestParseError};
use crate::text::{contains_text, decimal, decimal_string, occurs_in, same_text, views};

verus! {

/// What the invocation asked for. It is made once, and only read after.
pub struct RunOptions {
    /// The directory to work in; the working directory where it is absent.
    pub path: Option<String>,
    /// The name of the output file; `STDOUT` sends the dependency records to
    /// standard output.
    pub filename: Option<String>,
    /// Whether an existing output file is replaced.
    pub overwrite: bool,
    /// Whether the citing section is appended to the README files.
    pub readme_append: bool,
    /// Whether the run writes the records of the dependencies.
    pub dependencies: bool,
    /// How deep the search for manifests goes.
    pub max_depth: Option<i32>,
}

/// What can go wrong in a run.
#[derive(Clone, Copy, Debug, PartialEq, Eq, Structural)]
pub enum Failure {
    DirectoryNotFound,
    FileOpenError,
    FileReadError,
    ManifestParseError,
    FileWriteError,
    DestinationExists,
    TraversalEntryError,
    RegistryLookupFailure,
}

/// What a failure does to the run.
#[derive(Clone, Copy, Debug, PartialEq, Eq, Structural)]
pub enum Effect {
    /// The run ends at once.
    HaltRun,
    /// The manifest at hand is skipped, and counted as skipped.
    SkipFile,
    /// The entry is left out of what the search finds.
    OmitEntry,
    /// The record is written without what the registry would have added.
    OmitEnrichment,
}

impl Failure {
    /// What this failure does to the run. Only a missing directory ends it;
    /// every failure on a file skips that file.
    pub open spec fn effect(self) -> Effect {
        match self {
            Failure::DirectoryNotFound => Effect::HaltRun,
            Failure::FileOpenError => Effect::SkipFile,
            Failure::FileReadError => Effect::SkipFile,
            Failure::ManifestParseError => Effect::SkipFile,
            Failure::FileWriteError => Effect::SkipFile,
            Failure::DestinationExists => Effect::SkipFile,
            Failure::TraversalEntryError => Effect::OmitEntry,
            Failure::RegistryLookupFailure => Effect::OmitEnrichment,
        }
    }

    /// What this failure does to the run.
    pub fn consequence(&self) -> (r: Effect)
        ensures
            r == self.effect(),
    {
        match self {
            Failure::DirectoryNotFound => Effect::HaltRun,
            Failure::FileOpenError => Effect::SkipFile,
            Failure::FileReadError => Effect::SkipFile,
            Failure::ManifestParseError => Effect::SkipFile,
            Failure::FileWriteError => Effect::SkipFile,
            Failure::DestinationExists => Effect::SkipFile,
            Failure::TraversalEntryError => Effect::OmitEntry,
            Failure::RegistryLookupFailure => Effect::OmitEnrichment,
        }
    }
}

/// Where the manifests are looked for.
#[derive(Clone, Copy, Debug, PartialEq, Eq, Structural)]
pub enum Discovery {
    /// Only the manifest directly inside the root directory.
    RootOnly,
    /// A walk of the tree below the root, down to `limit` where there is one.
    Walk { limit: Option<usize> },
}

/// What happens to a destination file.
#[derive(Clone, Copy, Debug, PartialEq, Eq, Structural)]
pub enum WritePlan {
    /// The text is written, in place of what the file held.
    Write,
    /// The file is there and stays as it is.
    Keep,
}

/// The plan for a destination: a file that exists is kept unless the
/// invocation asked to overwrite.
pub open spec fn write_plan(exists: bool, overwrite: bool) -> WritePlan {
    if exists && !overwrite {
        WritePlan::Keep
    } else {
        WritePlan::Write
    }
}

/// What the destination holds once the plan is carried out with `text`,
/// where it held `before` (nothing, where it was not there).
pub open spec fn destination_after(before: Option<Seq<u8>>, plan: WritePlan, text: Seq<u8>) -> Option<
    Seq<u8>,
> {
    match plan {
        WritePlan::Write => Some(text),
        WritePlan::Keep => before,
    }
}

/// Where the records of the dependencies go.
pub enum AggregateTarget {
    /// There is nothing to write.
    Nothing,
    /// Standard output.
    Stdout,
    /// The file of this name in the root directory.
    File(String),
}

/// An aggregate target as plain values.
pub enum AggregateView {
    Nothing,
    Stdout,
    File(Seq<char>),
}

impl View for AggregateTarget {
    type V = AggregateView;

    open spec fn view(&self) -> AggregateView {
        match *self {
            AggregateTarget::Nothing => AggregateView::Nothing,
            AggregateTarget::Stdout => AggregateView::Stdout,
            AggregateTarget::File(n) => AggregateView::File(n@),
        }
    }
}

/// The names among `names` that hold `README`, in order.
pub open spec fn readme_names(names: Seq<Seq<char>>) -> Seq<Seq<char>>
    decreases names.len(),
{
    if names.len() == 0 {
        Seq::empty()
    } else if occurs_in(names.last(), "README"@) {
        readme_names(names.drop_last()).push(names.last())
    } else {
        readme_names(names.drop_last())
    }
}

/// The names among `names` that hold `README`, in order.
pub fn select_readmes(names: &Vec<String>) -> (r: Vec<String>)
    ensures
        views(r@) == readme_names(views(names@)),
{
    let mut found: Vec<String> = Vec::new();
    let mut i: usize = 0;
    while i < names.len()
        invariant
            i <= names.len(),
            views(found@) == readme_names(views(names@).take(i as int)),
        decreases names.len() - i,
    {
        let ghost before = views(found@);
        if contains_text(names[i].as_str(), "README") {
            found.push(names[i].clone());
        }
        proof {
            let all = views(names@);
            assert(all.take(i + 1).drop_last() =~= all.take(i as int));
            assert(all.take(i + 1).last() == names@[i as int]@);
            if occurs_in(names@[i as int]@, "README"@) {
                assert(views(found@) =~= before.push(names@[i as int]@));
            }
        }
        i += 1;
    }
    proof {
        assert(views(names@).take(i as int) =~= views(names@));
    }
    found
}

impl RunOptions {
    /// The name of the citation file of a package: the configured name, or
    /// `CITATION.bib`.
    pub open spec fn citation_name(&self) -> Seq<char> {
        match self.filename {
            Some(n) => n@,
            None => "CITATION.bib"@,
        }
    }

    /// The name under which the records of the dependencies are written: the
    /// configured name, or `DEPENDENCIES.bib`.
    pub open spec fn aggregate_name(&self) -> Seq<char> {
        match self.filename {
            Some(n) => n@,
            None => "DEPENDENCIES.bib"@,
        }
    }

    /// Where the records `text` of the dependencies go: nowhere outside
    /// dependency mode or where there are none; to standard output where the
    /// name is `STDOUT`; else to the file of that name.
    pub open spec fn aggregate_view(&self, text: Seq<char>) -> AggregateView {
        if !self.dependencies || text.len() == 0 {
            AggregateView::Nothing
        } else if self.aggregate_name() == "STDOUT"@ {
            AggregateView::Stdout
        } else {
            AggregateView::File(self.aggregate_name())
        }
    }

    /// The directory in which the run works: the configured path, else the
    /// working directory; where neither is known, the run cannot start.
    pub fn resolve_root(&self, working_directory: &Option<String>) -> (r: Result<String, Failure>)
        ensures
            match (self.path, *working_directory) {
                (Some(p), _) => r is Ok && r->Ok_0@ == p@,
                (None, Some(w)) => r is Ok && r->Ok_0@ == w@,
                (None, None) => r == Err::<String, Failure>(Failure::DirectoryNotFound),
            },
    {
        match &self.path {
            Some(p) => Ok(p.clone()),
            None => match working_directory {
                Some(w) => Ok(w.clone()),
                None => Err(Failure::DirectoryNotFound),
            },
        }
    }

    /// Where the manifests are looked for: in dependency mode by a walk
    /// within the depth bound, else directly inside the root only.
    pub fn discovery(&self) -> (r: Discovery)
        ensures
            !self.dependencies ==> r == Discovery::RootOnly,
            self.dependencies ==> match depth_limit(self.max_depth) {
                Some(limit) => r == (Discovery::Walk { limit: Some(limit as usize) }) && limit
                    <= usize::MAX,
                None => r == (Discovery::Walk { limit: None }),
            },
    {
        if self.dependencies {
            Discovery::Walk { limit: walk_limit(self.max_depth) }
        } else {
            Discovery::RootOnly
        }
    }

    /// The name of the citation file of a package.
    pub fn citation_file(&self) -> (r: String)
        ensures
            r@ == self.citation_name(),
    {
        match &self.filename {
            Some(n) => n.clone(),
            None => String::from_str("CITATION.bib"),
        }
    }

    /// The plan for a destination, given whether it exists.
    pub fn plan_write(&self, exists: bool) -> (r: WritePlan)
        ensures
            r == write_plan(exists, self.overwrite),
    {
        if exists && !self.overwrite {
            WritePlan::Keep
        } else {
            WritePlan::Write
        }
    }

    /// Where the records `text` of the dependencies go.
    pub fn aggregate_target(&self, text: &str) -> (r: AggregateTarget)
        ensures
            r@ == self.aggregate_view(text@),
    {
        if !self.dependencies || text.unicode_len() == 0 {
            return AggregateTarget::Nothing;
        }
        let name = match &self.filename {
            Some(n) => n.clone(),
            None => String::from_str("DEPENDENCIES.bib"),
        };
        if same_text(name.as_str(), "STDOUT") {
            AggregateTarget::Stdout
        } else {
            AggregateTarget::File(name)
        }
    }
}

/// What is to be done for one manifest.
pub enum FilePlan {
    /// Dependency mode: the registry is asked for the manifest's
    /// dependencies, and their records are built.
    Dependencies { manifest: ManifestInfo },
    /// The citing section `section` is appended to each of `readmes`; then
    /// `citation` is written to the citation file, or, where it is `None`,
    /// the file is there and is kept.
    Package { manifest: ManifestInfo, readmes: Vec<String>, section: String, citation: Option<String> },
}

/// Whether `plan` is what is to be done for the manifest text `text` under
/// the options `opt`, in a directory that holds the files `siblings`, with
/// the citation file already there or not.
pub open spec fn plans_file(
    text: Seq<char>,
    opt: RunOptions,
    siblings: Seq<Seq<char>>,
    destination_exists: bool,
    plan: Result<FilePlan, ManifestParseError>,
) -> bool {
    match plan {
        Err(e) => reads_text(text, Err(e@)),
        Ok(FilePlan::Dependencies { manifest }) => {
            &&& opt.dependencies
            &&& reads_text(text, Ok(manifest@))
            &&& manifest@.well_formed()
        },
        Ok(FilePlan::Package { manifest, readmes, section, citation }) => {
            &&& !opt.dependencies
            &&& reads_text(text, Ok(manifest@))
            &&& manifest@.well_formed()
            &&& views(readmes@) == if opt.readme_append {
                readme_names(siblings)
            } else {
                Seq::empty()
            }
            &&& section@ == readme_section_text()
            &&& match citation {
                Some(c) => write_plan(destination_exists, opt.overwrite) == WritePlan::Write
                    && exists|month: nat, year: int|
                    1 <= month <= 12 && i32::MIN <= year <= i32::MAX && c@
                        == #[trigger] package_record(manifest@.package, month, year),
                None => write_plan(destination_exists, opt.overwrite) == WritePlan::Keep,
            }
        },
    }
}

/// Decides what is to be done for one manifest, from its text, the names of
/// the files beside it, and whether its citation file is already there.
pub fn process_cargo_file(
    text: &str,
    opt: &RunOptions,
    siblings: &Vec<String>,
    destination_exists: bool,
) -> (r: Result<FilePlan, ManifestParseError>)
    ensures
        plans_file(text@, *opt, views(siblings@), destination_exists, r),
{
    let manifest = match ManifestInfo::parse(text) {
        Ok(manifest) => manifest,
        Err(e) => {
            return Err(e);
        },
    };
    if opt.dependencies {
        return Ok(FilePlan::Dependencies { manifest });
    }
    let readmes = if opt.readme_append {
        select_readmes(siblings)
    } else {
        let none: Vec<String> = Vec::new();
        assert(views(none@) =~= Seq::empty());
        none
    };
    let section = manifest.package.readme_section();
    let citation = match opt.plan_write(destination_exists) {
        WritePlan::Write => Some(manifest.package.build_bibtex()),
        WritePlan::Keep => None,
    };
    Ok(FilePlan::Package { manifest, readmes, section, citation })
}

/// What a run has done so far.
pub struct Run {
    /// How many manifests were processed.
    pub processed: u64,
    /// How many manifests were skipped.
    pub skipped: u64,
    /// The records of the dependencies, gathered over the manifests.
    pub dependencies: String,
}

/// The state of a run as plain values.
pub struct RunView {
    pub processed: nat,
    pub skipped: nat,
    pub dependencies: Seq<char>,
}

impl View for Run {
    type V = RunView;

    open spec fn view(&self) -> RunView {
        RunView {
            processed: self.processed as nat,
            skipped: self.skipped as nat,
            dependencies: self.dependencies@,
        }
    }
}

impl RunView {
    /// The state after a manifest was processed and gave `records`, which
    /// are gathered in dependency mode only.
    pub open spec fn after_success(self, dependency_mode: bool, records: Seq<char>) -> RunView {
        RunView {
            processed: self.processed + 1,
            skipped: self.skipped,
            dependencies: if dependency_mode {
                self.dependencies + records
            } else {
                self.dependencies
            },
        }
    }

    /// The state after `failure`: one more skipped where the failure skips
    /// a file, and no change otherwise.
    pub open spec fn after_failure(self, failure: Failure) -> RunView {
        if failure.effect() == Effect::SkipFile {
            RunView { skipped: self.skipped + 1, ..self }
        } else {
            self
        }
    }

    /// One line of the summary: nothing for a count of 0, else the count
    /// behind `label`, with `file` in the singular for a count of 1.
    pub open spec fn count_line(label: Seq<char>, count: nat) -> Seq<char> {
        if count == 0 {
            Seq::empty()
        } else if count == 1 {
            label + decimal(count) + " file\n"@
        } else {
            label + decimal(count) + " files\n"@
        }
    }

    /// The summary of the run: nothing where no manifest was met, else a
    /// heading and a line for each count that is not 0.
    pub open spec fn summary(self) -> Seq<char> {
        if self.processed == 0 && self.skipped == 0 {
            Seq::empty()
        } else {
            "\nSummary:\n"@ + Self::count_line("- Successfully processed: "@, self.processed)
                + Self::count_line("- Skipped due to errors: "@, self.skipped)
        }
    }
}

fn push_count_line(out: &mut String, label: &str, count: u64)
    ensures
        final(out)@ == old(out)@ + RunView::count_line(label@, count as nat),
{
    if count == 0 {
        assert(out@ =~= old(out)@ + Seq::<char>::empty());
    } else {
        let digits = decimal_string(count);
        out.append(label);
        out.append(digits.as_str());
        if count == 1 {
            out.append(" file\n");
        } else {
            out.append(" files\n");
        }
        assert(out@ =~= old(out)@ + RunView::count_line(label@, count as nat));
    }
}

impl Run {
    /// A run that has met no manifest yet.
    pub fn new() -> (r: Run)
        ensures
            r@ == (RunView { processed: 0, skipped: 0, dependencies: Seq::empty() }),
    {
        Run { processed: 0, skipped: 0, dependencies: String::new() }
    }

    /// Counts a processed manifest and, in dependency mode, gathers its
    /// records behind those of the manifests before it.
    pub fn record_success(&mut self, dependency_mode: bool, records: &str)
        requires
            old(self).processed < u64::MAX,
        ensures
            final(self)@ == old(self)@.after_success(dependency_mode, records@),
    {
        self.processed = self.processed + 1;
        if dependency_mode {
            self.dependencies.append(records);
        }
    }

    /// Takes note of a failure: one that skips a file is counted.
    pub fn record_failure(&mut self, failure: Failure)
        requires
            old(self).skipped < u64::MAX,
        ensures
            final(self)@ == old(self)@.after_failure(failure),
    {
        match failure.consequence() {
            Effect::SkipFile => {
                self.skipped = self.skipped + 1;
            },
            _ => {},
        }
    }

    /// The summary of the run.
    pub fn summary(&self) -> (r: String)
        ensures
            r@ == self@.summary(),
    {
        let mut out = String::new();
        if self.processed == 0 && self.skipped == 0 {
            return out;
        }
        out.append("\nSummary:\n");
        push_count_line(&mut out, "- Successfully processed: ", self.processed);
        push_count_line(&mut out, "- Skipped due to errors: ", self.skipped);
        assert(out@ =~= self@.summary());
        out
    }
}

/// A destination that is there is kept when the invocation did not ask to
/// overwrite: it holds afterwards what it held before, and the manifest is
/// counted as skipped, not as processed.
pub proof fn lemma_existing_destination_is_kept(run: RunView, before: Seq<u8>, text: Seq<u8>)
    ensures
        write_plan(true, false) == WritePlan::Keep,
        destination_after(Some(before), write_plan(true, false), text) == Some(before),
        run.after_failure(Failure::DestinationExists).skipped == run.skipped + 1,
        run.after_failure(Failure::DestinationExists).processed == run.processed,
        run.after_failure(Failure::DestinationExists).dependencies == run.dependencies,
{
}

/// A destination is written exactly when it is not there or the invocation
/// asked to overwrite, and then holds the new text.
pub proof fn lemma_destination_is_written(before: Option<Seq<u8>>, overwrite: bool, text: Seq<u8>)
    ensures
        write_plan(before is Some, overwrite) == WritePlan::Write <==> before is None || overwrite,
        before is None || overwrite ==> destination_after(
            before,
            write_plan(before is Some, overwrite),
            text,
        ) == Some(text),
{
}

} // verus!
