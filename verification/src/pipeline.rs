//! The rows of one repository: what its walk and its diffs come to.

use crate::history::{Commit, CommitView};
use crate::patch::{rows_of_patch, Classifier, DiffLine, DiffLineView};
use crate::record::{CsvColumn, CsvColumnView};
use crate::text::{last_segment, spec_last_segment};
use vstd::prelude::*;
use vstd::string::*;

verus! {

/// Extension of the output file of a repository.
pub const OUTPUT_EXTENSION: &'static str = ".csv";

/// The patch of one commit against its first parent.
#[derive(Clone, Debug, PartialEq, Eq)]
pub struct Patch {
    pub commit: Commit,
    /// The lines of the patch from the parent's tree to the commit's, in
    /// patch order.
    pub lines: Vec<DiffLine>,
}

/// A patch as a mathematical value.
pub struct PatchView {
    pub commit: CommitView,
    pub lines: Seq<DiffLineView>,
}

impl View for Patch {
    type V = PatchView;

    open spec fn view(&self) -> PatchView {
        PatchView { commit: self.commit@, lines: self.lines.deep_view() }
    }
}

impl DeepView for Patch {
    type V = PatchView;

    open spec fn deep_view(&self) -> PatchView {
        self@
    }
}

/// What diffing one pair of revisions came to.
#[derive(Clone, Debug, PartialEq, Eq)]
pub enum DiffOutcome {
    /// The patch was computed.
    Computed(Patch),
    /// The diff failed; the message says why.
    Failed(String),
}

/// The outcome of a diff as a mathematical value.
pub enum DiffOutcomeView {
    Computed(PatchView),
    Failed(Seq<char>),
}

impl View for DiffOutcome {
    type V = DiffOutcomeView;

    open spec fn view(&self) -> DiffOutcomeView {
        match self {
            DiffOutcome::Computed(patch) => DiffOutcomeView::Computed(patch@),
            DiffOutcome::Failed(message) => DiffOutcomeView::Failed(message@),
        }
    }
}

impl DeepView for DiffOutcome {
    type V = DiffOutcomeView;

    open spec fn deep_view(&self) -> DiffOutcomeView {
        self@
    }
}

/// The name of the project in a working directory: the last non-empty
/// segment of the directory's path.
pub fn project_name(workdir: &str) -> (name: Option<String>)
    ensures
        name.deep_view() == spec_last_segment(workdir@),
{
    last_segment(workdir)
}

/// The name of the output file of a project.
pub fn output_file_name(project_name: &str) -> (file_name: String)
    ensures
        file_name@ == project_name@ + OUTPUT_EXTENSION@,
{
    project_name.to_owned().concat(OUTPUT_EXTENSION)
}

/// The rows that one diff contributes: those of its patch, and none where
/// it failed.
pub open spec fn rows_of_outcome(outcome: DiffOutcomeView, project_name: Seq<char>) -> Seq<
    CsvColumnView,
> {
    match outcome {
        DiffOutcomeView::Computed(patch) => rows_of_patch(patch.lines, patch.commit, project_name),
        DiffOutcomeView::Failed(_) => Seq::empty(),
    }
}

/// The rows of a repository: those of its diffs, one diff after the other
/// in the order of the walk.
pub open spec fn rows_of_walk(outcomes: Seq<DiffOutcomeView>, project_name: Seq<char>) -> Seq<
    CsvColumnView,
> {
    outcomes.map_values(|outcome: DiffOutcomeView| rows_of_outcome(outcome, project_name)).flatten()
}

/// One more diff at the end of a walk adds its rows at the end.
pub proof fn lemma_rows_of_walk_push(
    outcomes: Seq<DiffOutcomeView>,
    outcome: DiffOutcomeView,
    project_name: Seq<char>,
)
    ensures
        rows_of_walk(outcomes.push(outcome), project_name) == rows_of_walk(outcomes, project_name)
            + rows_of_outcome(outcome, project_name),
{
    let rows = |outcome: DiffOutcomeView| rows_of_outcome(outcome, project_name);
    assert(outcomes.push(outcome).map_values(rows) == outcomes.map_values(rows).push(
        rows(outcome),
    ));
    outcomes.map_values(rows).lemma_flatten_push(rows(outcome));
}

/// The rows of a walk are those of its first part followed by those of the
/// rest: rows are only ever added at the end, a row of an earlier commit
/// stands before every row of a later one, and within a commit the rows
/// keep patch order.
pub proof fn lemma_rows_of_walk_concat(
    first: Seq<DiffOutcomeView>,
    rest: Seq<DiffOutcomeView>,
    project_name: Seq<char>,
)
    ensures
        rows_of_walk(first + rest, project_name) == rows_of_walk(first, project_name)
            + rows_of_walk(rest, project_name),
    decreases rest.len(),
{
    if rest.len() > 0 {
        assert(first + rest == (first + rest.drop_last()).push(rest.last()));
        assert(rest == rest.drop_last().push(rest.last()));
        lemma_rows_of_walk_concat(first, rest.drop_last(), project_name);
        lemma_rows_of_walk_push(first + rest.drop_last(), rest.last(), project_name);
        lemma_rows_of_walk_push(rest.drop_last(), rest.last(), project_name);
    }
}

/// A diff that failed adds no row and takes none away: the rows are those
/// of the diffs before it followed by those of the diffs after it.
pub proof fn lemma_failed_diff_adds_nothing(
    before: Seq<DiffOutcomeView>,
    message: Seq<char>,
    after: Seq<DiffOutcomeView>,
    project_name: Seq<char>,
)
    ensures
        rows_of_walk(before + seq![DiffOutcomeView::Failed(message)] + after, project_name)
            == rows_of_walk(before, project_name) + rows_of_walk(after, project_name),
{
    let failed = DiffOutcomeView::Failed(message);
    assert(before + seq![failed] == before.push(failed));
    lemma_rows_of_walk_concat(before.push(failed), after, project_name);
    lemma_rows_of_walk_push(before, failed, project_name);
}

/// The rows of one diff: those of its patch in patch order, and none where
/// the diff failed.
pub fn outcome_columns(classifier: &Classifier, project_name: &str, outcome: &DiffOutcome) -> (rows:
    Vec<CsvColumn>)
    ensures
        rows.deep_view() == rows_of_outcome(outcome@, project_name@),
{
    match outcome {
        DiffOutcome::Computed(patch) => classifier.classify_patch(
            &patch.lines,
            &patch.commit,
            project_name,
        ),
        DiffOutcome::Failed(_) => Vec::new(),
    }
}

/// Turns the diffs of a repository into its rows, commit by commit in the
/// order of the walk and line by line within a patch. A failed diff adds
/// nothing and the diffs after it are still read.
pub fn csv_columns(classifier: &Classifier, project_name: &str, outcomes: &Vec<DiffOutcome>) -> (rows:
    Vec<CsvColumn>)
    ensures
        rows.deep_view() == rows_of_walk(outcomes.deep_view(), project_name@),
{
    let mut rows: Vec<CsvColumn> = Vec::new();
    let mut i: usize = 0;
    while i < outcomes.len()
        invariant
            i <= outcomes.len(),
            rows.deep_view() == rows_of_walk(outcomes.deep_view().take(i as int), project_name@),
        decreases outcomes.len() - i,
    {
        proof {
            assert(outcomes.deep_view().take(i + 1) == outcomes.deep_view().take(i as int).push(
                outcomes[i as int]@,
            ));
            lemma_rows_of_walk_push(
                outcomes.deep_view().take(i as int),
                outcomes[i as int]@,
                project_name@,
            );
        }
        let mut more = outcome_columns(classifier, project_name, &outcomes[i]);
        rows.append(&mut more);
        i = i + 1;
    }
    assert(outcomes.deep_view().take(i as int) == outcomes.deep_view());
    rows
}

} // verus!
