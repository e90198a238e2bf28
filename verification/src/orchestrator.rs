//! The order of an update run, as a state machine.
//!
//! The caller carries out the work of each state and reports how it ended;
//! the machine says which state comes next and what is to be done there. A
//! run goes from `Idle` through the stages to `Done`, ends early in
//! `UpToDate` where no update is needed, and ends in `Failed` as soon as a
//! stage fails. Nothing is retried.

use vstd::prelude::*;
use vstd::string::*;
use crate::apply::apply_steps;
use crate::layout::marker_path;
use crate::paths::PathStyle;
use crate::plan::{required, FileOpView};
use crate::version::update_needed;

verus! {

/// The stage whose failure ended a run.
#[derive(Debug, Clone, Copy, PartialEq, Eq)]
pub enum FailureReason {
    /// The remote version could not be fetched.
    Network,
    /// The archive could not be downloaded.
    Download,
    /// The archive could not be extracted.
    Extract,
    /// The installation could not be backed up.
    Backup,
    /// The new version could not be recorded.
    Apply,
    /// An event was reported that the state does not expect.
    OutOfOrder,
}

impl FailureReason {
    /// The text of the message for this reason.
    pub open spec fn message_text(self) -> Seq<char> {
        match self {
            FailureReason::Network => "the remote version could not be fetched"@,
            FailureReason::Download => "the archive could not be downloaded"@,
            FailureReason::Extract => "the archive could not be extracted"@,
            FailureReason::Backup => "the installation could not be backed up"@,
            FailureReason::Apply => "the new version could not be recorded"@,
            FailureReason::OutOfOrder => "the stages ran out of order"@,
        }
    }

    /// A message for the user.
    pub fn message(&self) -> (r: String)
        ensures
            r@ == self.message_text(),
    {
        match self {
            FailureReason::Network => "the remote version could not be fetched".to_owned(),
            FailureReason::Download => "the archive could not be downloaded".to_owned(),
            FailureReason::Extract => "the archive could not be extracted".to_owned(),
            FailureReason::Backup => "the installation could not be backed up".to_owned(),
            FailureReason::Apply => "the new version could not be recorded".to_owned(),
            FailureReason::OutOfOrder => "the stages ran out of order".to_owned(),
        }
    }
}

/// The states of a run.
#[derive(Debug, Clone, Copy, PartialEq, Eq)]
pub enum UpdateState {
    Idle,
    CheckingVersion,
    UpToDate,
    Downloading,
    Extracting,
    BackingUp,
    Applying,
    Done,
    Failed(FailureReason),
}

/// What the caller reports.
#[derive(Debug, Clone, Copy, PartialEq, Eq)]
pub enum UpdateEvent {
    /// The session has started.
    SessionStarted,
    /// Both versions are known, and with them whether an update is needed.
    VersionsResolved { update_needed: bool },
    /// The archive lies in the workspace.
    ArtifactDownloaded,
    /// The archive is extracted and its top-level entries are known.
    ArchiveExtracted,
    /// The backup is complete, be it empty.
    SnapshotTaken,
    /// The files are placed and the version marker is written.
    MarkerWritten,
    /// The work of the current state has failed.
    StageFailed,
}

/// What the caller is to do next.
#[derive(Debug, Clone, Copy, PartialEq, Eq)]
pub enum UpdateAction {
    /// Report the start of the session.
    Start,
    /// Fetch the remote version and read the local one.
    ResolveVersions,
    /// Download the archive into the workspace.
    Download,
    /// Extract the archive inside the workspace.
    Extract,
    /// Back up the installation.
    BackUp,
    /// Place the files and write the version marker.
    Apply,
    /// Nothing: the run has ended.
    Stop,
}

/// Whether a run has ended in `state`.
pub open spec fn is_terminal(state: UpdateState) -> bool {
    state is UpToDate || state is Done || state is Failed
}

/// The reason recorded where the work of `state` fails.
pub open spec fn failure_of(state: UpdateState) -> FailureReason {
    match state {
        UpdateState::CheckingVersion => FailureReason::Network,
        UpdateState::Downloading => FailureReason::Download,
        UpdateState::Extracting => FailureReason::Extract,
        UpdateState::BackingUp => FailureReason::Backup,
        UpdateState::Applying => FailureReason::Apply,
        _ => FailureReason::OutOfOrder,
    }
}

/// The state that follows `state` on `event`.
pub open spec fn next_state(state: UpdateState, event: UpdateEvent) -> UpdateState {
    if is_terminal(state) {
        state
    } else {
        match (state, event) {
            (UpdateState::Idle, UpdateEvent::SessionStarted) => UpdateState::CheckingVersion,
            (UpdateState::CheckingVersion, UpdateEvent::VersionsResolved { update_needed }) => {
                if update_needed {
                    UpdateState::Downloading
                } else {
                    UpdateState::UpToDate
                }
            },
            (UpdateState::Downloading, UpdateEvent::ArtifactDownloaded) => UpdateState::Extracting,
            (UpdateState::Extracting, UpdateEvent::ArchiveExtracted) => UpdateState::BackingUp,
            (UpdateState::BackingUp, UpdateEvent::SnapshotTaken) => UpdateState::Applying,
            (UpdateState::Applying, UpdateEvent::MarkerWritten) => UpdateState::Done,
            (_, UpdateEvent::StageFailed) => UpdateState::Failed(failure_of(state)),
            _ => UpdateState::Failed(FailureReason::OutOfOrder),
        }
    }
}

/// What is to be done in `state`.
pub open spec fn action_in(state: UpdateState) -> UpdateAction {
    match state {
        UpdateState::Idle => UpdateAction::Start,
        UpdateState::CheckingVersion => UpdateAction::ResolveVersions,
        UpdateState::Downloading => UpdateAction::Download,
        UpdateState::Extracting => UpdateAction::Extract,
        UpdateState::BackingUp => UpdateAction::BackUp,
        UpdateState::Applying => UpdateAction::Apply,
        _ => UpdateAction::Stop,
    }
}

/// The state in which a run that starts in `state` stands after `events`.
pub open spec fn state_after(state: UpdateState, events: Seq<UpdateEvent>) -> UpdateState
    decreases events.len(),
{
    if events.len() == 0 {
        state
    } else {
        state_after(next_state(state, events[0]), events.drop_first())
    }
}

/// The events of a run in which every stage succeeds.
pub open spec fn successful_run() -> Seq<UpdateEvent> {
    seq![
        UpdateEvent::SessionStarted,
        UpdateEvent::VersionsResolved { update_needed: true },
        UpdateEvent::ArtifactDownloaded,
        UpdateEvent::ArchiveExtracted,
        UpdateEvent::SnapshotTaken,
        UpdateEvent::MarkerWritten,
    ]
}

impl UpdateState {
    /// The state in which every run starts.
    pub fn start() -> (s: UpdateState)
        ensures
            s == UpdateState::Idle,
    {
        UpdateState::Idle
    }

    /// Whether the run has ended.
    pub fn has_ended(&self) -> (r: bool)
        ensures
            r == is_terminal(*self),
    {
        match self {
            UpdateState::UpToDate | UpdateState::Done | UpdateState::Failed(_) => true,
            _ => false,
        }
    }

    /// What is to be done in this state.
    pub fn action(&self) -> (a: UpdateAction)
        ensures
            a == action_in(*self),
    {
        match self {
            UpdateState::Idle => UpdateAction::Start,
            UpdateState::CheckingVersion => UpdateAction::ResolveVersions,
            UpdateState::Downloading => UpdateAction::Download,
            UpdateState::Extracting => UpdateAction::Extract,
            UpdateState::BackingUp => UpdateAction::BackUp,
            UpdateState::Applying => UpdateAction::Apply,
            _ => UpdateAction::Stop,
        }
    }

    /// The reason recorded where the work of this state fails.
    pub fn failure(&self) -> (reason: FailureReason)
        ensures
            reason == failure_of(*self),
    {
        match self {
            UpdateState::CheckingVersion => FailureReason::Network,
            UpdateState::Downloading => FailureReason::Download,
            UpdateState::Extracting => FailureReason::Extract,
            UpdateState::BackingUp => FailureReason::Backup,
            UpdateState::Applying => FailureReason::Apply,
            _ => FailureReason::OutOfOrder,
        }
    }
}

/// Takes one step of a run: from `state`, on `event`, to the next state
/// and the action to carry out there.
pub fn step(state: UpdateState, event: UpdateEvent) -> (r: (UpdateState, UpdateAction))
    ensures
        r.0 == next_state(state, event),
        r.1 == action_in(r.0),
{
    let next = if state.has_ended() {
        state
    } else {
        match event {
            UpdateEvent::StageFailed => UpdateState::Failed(state.failure()),
            UpdateEvent::SessionStarted => match state {
                UpdateState::Idle => UpdateState::CheckingVersion,
                _ => UpdateState::Failed(FailureReason::OutOfOrder),
            },
            UpdateEvent::VersionsResolved { update_needed } => match state {
                UpdateState::CheckingVersion => if update_needed {
                    UpdateState::Downloading
                } else {
                    UpdateState::UpToDate
                },
                _ => UpdateState::Failed(FailureReason::OutOfOrder),
            },
            UpdateEvent::ArtifactDownloaded => match state {
                UpdateState::Downloading => UpdateState::Extracting,
                _ => UpdateState::Failed(FailureReason::OutOfOrder),
            },
            UpdateEvent::ArchiveExtracted => match state {
                UpdateState::Extracting => UpdateState::BackingUp,
                _ => UpdateState::Failed(FailureReason::OutOfOrder),
            },
            UpdateEvent::SnapshotTaken => match state {
                UpdateState::BackingUp => UpdateState::Applying,
                _ => UpdateState::Failed(FailureReason::OutOfOrder),
            },
            UpdateEvent::MarkerWritten => match state {
                UpdateState::Applying => UpdateState::Done,
                _ => UpdateState::Failed(FailureReason::OutOfOrder),
            },
        }
    };
    (next, next.action())
}

/// Runs the machine over `events`, from `state`.
pub fn run(state: UpdateState, events: &Vec<UpdateEvent>) -> (end: UpdateState)
    ensures
        end == state_after(state, events@),
{
    let mut current = state;
    let mut i: usize = 0;
    assert(events@.skip(0) == events@);
    while i < events.len()
        invariant
            i <= events@.len(),
            state_after(current, events@.skip(i as int)) == state_after(state, events@),
        decreases events@.len() - i,
    {
        proof {
            let rest = events@.skip(i as int);
            assert(rest[0] == events@[i as int]);
            assert(rest.drop_first() == events@.skip(i + 1));
        }
        current = step(current, events[i]).0;
        i += 1;
    }
    current
}

/// A run that has ended stays where it is, whatever is reported.
pub proof fn lemma_ended_runs_stay(state: UpdateState, events: Seq<UpdateEvent>)
    requires
        is_terminal(state),
    ensures
        state_after(state, events) == state,
    decreases events.len(),
{
    if events.len() > 0 {
        lemma_ended_runs_stay(state, events.drop_first());
    }
}

/// A run in which every stage succeeds ends in `Done`.
pub proof fn lemma_successful_run_is_done()
    ensures
        state_after(UpdateState::Idle, successful_run()) == UpdateState::Done,
{
    let e = successful_run();
    reveal_with_fuel(state_after, 8);
    assert(e.drop_first().drop_first().drop_first().drop_first().drop_first().drop_first().len()
        == 0);
}

/// `Done` is reached in one way only: a run from `Idle` that stands in
/// `Done` began with the events of a successful run, in their order. No
/// run is done after a stage has failed or was left out.
pub proof fn lemma_done_only_by_success(events: Seq<UpdateEvent>)
    requires
        state_after(UpdateState::Idle, events) == UpdateState::Done,
    ensures
        events.len() >= successful_run().len(),
        events.take(successful_run().len() as int) == successful_run(),
{
    let goal = successful_run();
    lemma_prefix_of_done(UpdateState::Idle, events, 0);
    assert(events.take(6) =~= goal);
}

/// The state in which a successful run stands after `k` of its events.
pub open spec fn stage(k: int) -> UpdateState {
    if k <= 0 {
        UpdateState::Idle
    } else if k == 1 {
        UpdateState::CheckingVersion
    } else if k == 2 {
        UpdateState::Downloading
    } else if k == 3 {
        UpdateState::Extracting
    } else if k == 4 {
        UpdateState::BackingUp
    } else if k == 5 {
        UpdateState::Applying
    } else {
        UpdateState::Done
    }
}

/// A run that stands at stage `k` of a successful run and ends in `Done`
/// goes on with the remaining events of a successful run.
pub proof fn lemma_prefix_of_done(state: UpdateState, events: Seq<UpdateEvent>, k: int)
    requires
        0 <= k <= 6,
        state == stage(k),
        state_after(state, events) == UpdateState::Done,
    ensures
        events.len() >= 6 - k,
        forall|i: int| 0 <= i < 6 - k ==> events[i] == successful_run()[k + i],
    decreases 6 - k,
{
    if k < 6 {
        if events.len() == 0 {
            assert(state_after(state, events) == state);
        } else {
            let next = next_state(state, events[0]);
            if next != stage(k + 1) {
                assert(is_terminal(next));
                lemma_ended_runs_stay(next, events.drop_first());
            } else {
                assert(events[0] == successful_run()[k]);
                lemma_prefix_of_done(next, events.drop_first(), k + 1);
                assert forall|i: int| 0 <= i < 6 - k implies events[i] == successful_run()[k
                    + i] by {
                    if i > 0 {
                        assert(events[i] == events.drop_first()[i - 1]);
                    }
                }
            }
        }
    }
}

/// A second run after a successful one stops without doing anything. The
/// last step of an apply writes the remote version to the version marker;
/// with that as the local version and the same remote version no update is
/// needed, so the second run ends in `UpToDate` before anything is
/// downloaded, and nothing is left to do.
pub proof fn lemma_second_run_is_up_to_date(
    root: Seq<char>,
    workspace: Seq<char>,
    names: Seq<Seq<char>>,
    staged: Seq<bool>,
    version: Seq<char>,
    style: PathStyle,
)
    ensures
        apply_steps(root, workspace, names, staged, version, style).last() == required(
            FileOpView::WriteText { path: marker_path(root, style), text: version },
        ),
        !update_needed(version, Some(version)),
        state_after(UpdateState::Idle, seq![UpdateEvent::SessionStarted])
            == UpdateState::CheckingVersion,
        action_in(UpdateState::CheckingVersion) == UpdateAction::ResolveVersions,
        state_after(
            UpdateState::Idle,
            seq![
                UpdateEvent::SessionStarted,
                UpdateEvent::VersionsResolved {
                    update_needed: update_needed(version, Some(version)),
                },
            ],
        ) == UpdateState::UpToDate,
        action_in(UpdateState::UpToDate) == UpdateAction::Stop,
{
    let start = seq![UpdateEvent::SessionStarted];
    assert(start.drop_first().len() == 0);
    let events = seq![
        UpdateEvent::SessionStarted,
        UpdateEvent::VersionsResolved { update_needed: update_needed(version, Some(version)) },
    ];
    reveal_with_fuel(state_after, 4);
    assert(events.drop_first().drop_first().len() == 0);
}

/// Whether a run in `state` may have changed the installation: it has
/// come as far as the backup.
pub open spec fn may_have_touched(state: UpdateState) -> bool {
    match state {
        UpdateState::BackingUp | UpdateState::Applying | UpdateState::Done => true,
        UpdateState::Failed(reason) => reason is Backup || reason is Apply || reason is OutOfOrder,
        _ => false,
    }
}

/// A run goes on from where its first events have brought it.
pub proof fn lemma_run_in_two_parts(state: UpdateState, events: Seq<UpdateEvent>, k: int)
    requires
        0 <= k <= events.len(),
    ensures
        state_after(state, events) == state_after(
            state_after(state, events.take(k)),
            events.skip(k),
        ),
    decreases k,
{
    if k == 0 {
        assert(events.take(0).len() == 0);
        assert(events.skip(0) == events);
    } else {
        let rest = events.drop_first();
        lemma_run_in_two_parts(next_state(state, events[0]), rest, k - 1);
        assert(events.take(k)[0] == events[0]);
        assert(events.take(k).drop_first() == rest.take(k - 1));
        assert(rest.skip(k - 1) == events.skip(k));
    }
}

/// A run that may have touched the installation may have touched it ever
/// after.
pub proof fn lemma_touched_stays_touched(state: UpdateState, events: Seq<UpdateEvent>)
    requires
        may_have_touched(state),
    ensures
        may_have_touched(state_after(state, events)),
    decreases events.len(),
{
    if events.len() > 0 {
        lemma_touched_stays_touched(next_state(state, events[0]), events.drop_first());
    }
}

/// A run that ends up to date, or fails before the backup, has left the
/// installation untouched: at no point was it asked to back up or to
/// apply. The first `k` of its events never brought it to a state in
/// which the installation is changed.
pub proof fn lemma_early_end_leaves_installation_untouched(events: Seq<UpdateEvent>, k: int)
    requires
        0 <= k <= events.len(),
        !may_have_touched(state_after(UpdateState::Idle, events)),
    ensures
        !may_have_touched(state_after(UpdateState::Idle, events.take(k))),
        action_in(state_after(UpdateState::Idle, events.take(k))) != UpdateAction::BackUp,
        action_in(state_after(UpdateState::Idle, events.take(k))) != UpdateAction::Apply,
{
    let middle = state_after(UpdateState::Idle, events.take(k));
    lemma_run_in_two_parts(UpdateState::Idle, events, k);
    if may_have_touched(middle) {
        lemma_touched_stays_touched(middle, events.skip(k));
    }
}

} // verus!
