//! Commits as the walk of a repository's history hands them over, and the
//! selection of the commits to diff.

use chrono::{LocalResult, TimeZone, Utc};
use vstd::prelude::*;

verus! {

/// What the pipeline reads of a commit.
#[derive(Clone, Debug, PartialEq, Eq)]
pub struct Commit {
    /// Content hash, in hexadecimal.
    pub hash: String,
    /// Commit time, in seconds since the epoch.
    pub seconds_since_epoch: i64,
    /// Display name of the committer, where the commit holds one.
    pub committer: Option<String>,
    /// Hashes of the parents, the first parent first.
    pub parents: Vec<String>,
}

/// A commit as a mathematical value.
pub struct CommitView {
    pub hash: Seq<char>,
    pub seconds_since_epoch: int,
    pub committer: Option<Seq<char>>,
    pub parents: Seq<Seq<char>>,
}

impl View for Commit {
    type V = CommitView;

    open spec fn view(&self) -> CommitView {
        CommitView {
            hash: self.hash@,
            seconds_since_epoch: self.seconds_since_epoch as int,
            committer: self.committer.deep_view(),
            parents: self.parents.deep_view(),
        }
    }
}

impl DeepView for Commit {
    type V = CommitView;

    open spec fn deep_view(&self) -> CommitView {
        self@
    }
}

/// One step of the walk of a repository's history.
#[derive(Clone, Debug, PartialEq, Eq)]
pub enum WalkEvent {
    /// The walk reached a commit and read it.
    Visited(Commit),
    /// The walk reached a commit that could not be read.
    Unresolved,
    /// The walk itself could not go on; the message says why.
    Failed(String),
}

/// A step of the walk as a mathematical value.
pub enum WalkEventView {
    Visited(CommitView),
    Unresolved,
    Failed(Seq<char>),
}

impl View for WalkEvent {
    type V = WalkEventView;

    open spec fn view(&self) -> WalkEventView {
        match self {
            WalkEvent::Visited(commit) => WalkEventView::Visited(commit@),
            WalkEvent::Unresolved => WalkEventView::Unresolved,
            WalkEvent::Failed(message) => WalkEventView::Failed(message@),
        }
    }
}

impl DeepView for WalkEvent {
    type V = WalkEventView;

    open spec fn deep_view(&self) -> WalkEventView {
        self@
    }
}

/// A commit to diff, and the parent to diff it against.
#[derive(Clone, Debug, PartialEq, Eq)]
pub struct RevisionPair {
    pub commit: Commit,
    /// Hash of the parent.
    pub parent: String,
}

/// A pair as a mathematical value.
pub struct RevisionPairView {
    pub commit: CommitView,
    pub parent: Seq<char>,
}

impl View for RevisionPair {
    type V = RevisionPairView;

    open spec fn view(&self) -> RevisionPairView {
        RevisionPairView { commit: self.commit@, parent: self.parent@ }
    }
}

impl DeepView for RevisionPair {
    type V = RevisionPairView;

    open spec fn deep_view(&self) -> RevisionPairView {
        self@
    }
}

/// Why the commits of a repository could not be had.
#[derive(Clone, Debug, PartialEq, Eq)]
pub enum DiffsError {
    /// The walk of the history failed; the message says why.
    GitError(String),
}

impl DiffsError {
    /// What to tell the user.
    pub fn message(&self) -> (text: String)
        ensures
            self matches DiffsError::GitError(reason) && text@ == "git error "@ + reason@,
    {
        match self {
            DiffsError::GitError(reason) => "git error ".to_owned().concat(reason.as_str()),
        }
    }
}

/// What to do at one step of the walk.
#[derive(Clone, Debug, PartialEq, Eq)]
pub enum Selection {
    /// Nothing: go on to the next step.
    Skip,
    /// Diff the pair's commit against its parent, then go on.
    Diff(RevisionPair),
    /// Give the repository up.
    Abort(DiffsError),
}

/// Whether a commit is recent enough: its time is strictly after the
/// cutoff.
pub open spec fn admitted(commit: CommitView, cutoff: int) -> bool {
    commit.seconds_since_epoch > cutoff
}

/// The pair that a commit gives: itself with its first parent, where it is
/// admitted and has a parent.
pub open spec fn pair_of(commit: CommitView, cutoff: int) -> Option<RevisionPairView> {
    if admitted(commit, cutoff) && commit.parents.len() > 0 {
        Some(RevisionPairView { commit, parent: commit.parents[0] })
    } else {
        None
    }
}

/// The pair that a step of the walk gives, if it gives one.
pub open spec fn pair_of_event(event: WalkEventView, cutoff: int) -> Option<RevisionPairView> {
    match event {
        WalkEventView::Visited(commit) => pair_of(commit, cutoff),
        _ => None,
    }
}

/// The pairs of a walk: those of its steps that give one, each step once
/// and in walk order.
pub open spec fn pairs_of(events: Seq<WalkEventView>, cutoff: int) -> Seq<RevisionPairView> {
    events.filter_map(|event: WalkEventView| pair_of_event(event, cutoff))
}

/// Every selected commit was visited by the walk and has a time strictly
/// after the cutoff.
pub proof fn lemma_pairs_after_cutoff(events: Seq<WalkEventView>, cutoff: int)
    ensures
        forall|k: int|
            0 <= k < pairs_of(events, cutoff).len() ==> ({
                let pair = #[trigger] pairs_of(events, cutoff)[k];
                &&& pair.commit.seconds_since_epoch > cutoff
                &&& exists|i: int|
                    0 <= i < events.len() && #[trigger] events[i] == WalkEventView::Visited(
                        pair.commit,
                    )
            }),
    decreases events.len(),
{
    if events.len() > 0 {
        let before = events.drop_last();
        lemma_pairs_after_cutoff(before, cutoff);
        assert forall|k: int| 0 <= k < pairs_of(events, cutoff).len() implies ({
            let pair = #[trigger] pairs_of(events, cutoff)[k];
            &&& pair.commit.seconds_since_epoch > cutoff
            &&& exists|i: int|
                0 <= i < events.len() && #[trigger] events[i] == WalkEventView::Visited(
                    pair.commit,
                )
        }) by {
            let pair = pairs_of(events, cutoff)[k];
            if k < pairs_of(before, cutoff).len() {
                assert(pair == pairs_of(before, cutoff)[k]);
                let i = choose|i: int|
                    0 <= i < before.len() && #[trigger] before[i] == WalkEventView::Visited(
                        pair.commit,
                    );
                assert(events[i] == WalkEventView::Visited(pair.commit));
            } else {
                assert(events[events.len() - 1] == WalkEventView::Visited(pair.commit));
            }
        }
    }
}

/// Every selected commit is paired with the first of its parents; a commit
/// without parents is never selected.
pub proof fn lemma_pairs_first_parent(events: Seq<WalkEventView>, cutoff: int)
    ensures
        forall|k: int|
            0 <= k < pairs_of(events, cutoff).len() ==> ({
                let pair = #[trigger] pairs_of(events, cutoff)[k];
                pair.commit.parents.len() > 0 && pair.parent == pair.commit.parents[0]
            }),
    decreases events.len(),
{
    if events.len() > 0 {
        lemma_pairs_first_parent(events.drop_last(), cutoff);
    }
}

/// The pairs of a walk are those of its first part followed by those of
/// the rest. The selection is a filter: a commit that is passed over ends
/// nothing, and what the walk visits after it is selected as if it had not
/// been there.
pub proof fn lemma_pairs_concat(first: Seq<WalkEventView>, rest: Seq<WalkEventView>, cutoff: int)
    ensures
        pairs_of(first + rest, cutoff) == pairs_of(first, cutoff) + pairs_of(rest, cutoff),
    decreases rest.len(),
{
    if rest.len() > 0 {
        assert((first + rest).drop_last() == first + rest.drop_last());
        lemma_pairs_concat(first, rest.drop_last(), cutoff);
    }
}

/// Decides what to do at one step of the walk.
pub fn select_one(event: WalkEvent, cutoff: i64) -> (step: Selection)
    ensures
        (match step {
            Selection::Skip => event@ !is Failed && pair_of_event(event@, cutoff as int) is None,
            Selection::Diff(pair) => pair_of_event(event@, cutoff as int) == Some(pair@),
            Selection::Abort(DiffsError::GitError(message)) => event@ == WalkEventView::Failed(
                message@,
            ),
        }),
{
    match event {
        WalkEvent::Visited(commit) => {
            if commit.seconds_since_epoch > cutoff && commit.parents.len() > 0 {
                let parent = commit.parents[0].clone();
                Selection::Diff(RevisionPair { commit, parent })
            } else {
                Selection::Skip
            }
        },
        WalkEvent::Unresolved => Selection::Skip,
        WalkEvent::Failed(message) => Selection::Abort(DiffsError::GitError(message)),
    }
}

/// Selects the pairs of a whole walk, in walk order. A commit at or before
/// the cutoff, one without parents and one that could not be read are
/// passed over, and the walk goes on after them; the first failure of the
/// walk itself is the outcome.
pub fn revision_pairs(events: Vec<WalkEvent>, cutoff: i64) -> (out: Result<
    Vec<RevisionPair>,
    DiffsError,
>)
    ensures
        out matches Ok(pairs) ==> pairs.deep_view() == pairs_of(events.deep_view(), cutoff as int)
            && forall|i: int| 0 <= i < events.len() ==> (#[trigger] events[i]@) !is Failed,
        out matches Err(DiffsError::GitError(message)) ==> exists|i: int|
            0 <= i < events.len() && (#[trigger] events[i]@) == WalkEventView::Failed(message@)
                && forall|j: int| 0 <= j < i ==> (#[trigger] events[j]@) !is Failed,
{
    let ghost all = events.deep_view();
    let mut pairs: Vec<RevisionPair> = Vec::new();
    for event in it: events
        invariant
            it.seq() == events@,
            all == events.deep_view(),
            pairs.deep_view() == pairs_of(all.take(it.index()), cutoff as int),
            forall|j: int| 0 <= j < it.index() ==> (#[trigger] events[j]@) !is Failed,
    {
        proof {
            all.lemma_filter_map_take_succ(
                |event: WalkEventView| pair_of_event(event, cutoff as int),
                it.index(),
            );
        }
        match select_one(event, cutoff) {
            Selection::Skip => {},
            Selection::Diff(pair) => {
                pairs.push(pair);
            },
            Selection::Abort(error) => {
                return Err(error);
            },
        }
    }
    assert(all.take(events.len() as int) == all);
    Ok(pairs)
}

/// The number of non-leap seconds from the start of 1970 to the given
/// calendar date and time of day in UTC, where these make a date and time
/// of the proleptic Gregorian calendar.
pub uninterp spec fn utc_timestamp(
    year: i32,
    month: u32,
    day: u32,
    hour: u32,
    minute: u32,
    second: u32,
) -> Option<i64>;

/// Makes a UTC date and time with `chrono`'s `TimeZone::with_ymd_and_hms`
/// and reads its Unix timestamp with `DateTime::timestamp`. Nothing comes
/// back where the numbers make no date and time; what comes back is a
/// function of the six numbers alone.
#[verifier::external_body]
fn utc_seconds(year: i32, month: u32, day: u32, hour: u32, minute: u32, second: u32) -> (seconds:
    Option<i64>)
    ensures
        seconds == utc_timestamp(year, month, day, hour, minute, second),
{
    match Utc.with_ymd_and_hms(year, month, day, hour, minute, second) {
        LocalResult::Single(moment) => Some(moment.timestamp()),
        LocalResult::Ambiguous(_, _) => None,
        LocalResult::None => None,
    }
}

/// The cutoff of the mining: midnight in UTC at the start of 20 March 2018,
/// as a Unix timestamp.
pub fn java_9_release_day() -> (cutoff: Option<i64>)
    ensures
        cutoff == utc_timestamp(2018, 3, 20, 0, 0, 0),
{
    utc_seconds(2018, 3, 20, 0, 0, 0)
}

} // verus!
