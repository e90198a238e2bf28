use amax_updater_client::orchestrator::{
    run, step, FailureReason, UpdateAction, UpdateEvent, UpdateState,
};
use amax_updater_client::version::needs_update;

fn successful() -> Vec<UpdateEvent> {
    vec![
        UpdateEvent::SessionStarted,
        UpdateEvent::VersionsResolved { update_needed: true },
        UpdateEvent::ArtifactDownloaded,
        UpdateEvent::ArchiveExtracted,
        UpdateEvent::SnapshotTaken,
        UpdateEvent::MarkerWritten,
    ]
}

#[test]
fn a_run_starts_idle() {
    assert_eq!(UpdateState::start(), UpdateState::Idle);
    assert_eq!(UpdateState::start().action(), UpdateAction::Start);
}

#[test]
fn successful_run_visits_every_stage() {
    let mut state = UpdateState::start();
    let expected = [
        (UpdateState::CheckingVersion, UpdateAction::ResolveVersions),
        (UpdateState::Downloading, UpdateAction::Download),
        (UpdateState::Extracting, UpdateAction::Extract),
        (UpdateState::BackingUp, UpdateAction::BackUp),
        (UpdateState::Applying, UpdateAction::Apply),
        (UpdateState::Done, UpdateAction::Stop),
    ];
    for (event, want) in successful().into_iter().zip(expected) {
        let got = step(state, event);
        assert_eq!(got, want);
        state = got.0;
    }
    assert!(state.has_ended());
    assert_eq!(run(UpdateState::Idle, &successful()), UpdateState::Done);
}

#[test]
fn newer_remote_version_leads_to_downloading() {
    let needed = needs_update("2.0.0.0", None);
    let events = vec![
        UpdateEvent::SessionStarted,
        UpdateEvent::VersionsResolved { update_needed: needed },
    ];
    assert_eq!(run(UpdateState::Idle, &events), UpdateState::Downloading);
}

#[test]
fn same_version_halts_at_up_to_date() {
    let needed = needs_update("1.0.0.0", Some("1.0.0.0"));
    let events = vec![
        UpdateEvent::SessionStarted,
        UpdateEvent::VersionsResolved { update_needed: needed },
    ];
    let end = run(UpdateState::Idle, &events);
    assert_eq!(end, UpdateState::UpToDate);
    assert!(end.has_ended());
    assert_eq!(end.action(), UpdateAction::Stop);
}

#[test]
fn second_run_against_the_same_version_stops_at_up_to_date() {
    for version in ["2.0.0.0", "1.0", "0.0.0.0.", "build-7", ""] {
        let needed = needs_update(version, Some(version));
        let got = step(UpdateState::CheckingVersion, UpdateEvent::VersionsResolved {
            update_needed: needed,
        });
        assert_eq!(got, (UpdateState::UpToDate, UpdateAction::Stop));
    }
}

#[test]
fn each_stage_fails_with_its_own_reason() {
    let cases = [
        (UpdateState::CheckingVersion, FailureReason::Network),
        (UpdateState::Downloading, FailureReason::Download),
        (UpdateState::Extracting, FailureReason::Extract),
        (UpdateState::BackingUp, FailureReason::Backup),
        (UpdateState::Applying, FailureReason::Apply),
        (UpdateState::Idle, FailureReason::OutOfOrder),
    ];
    for (state, reason) in cases {
        assert_eq!(state.failure(), reason);
        assert_eq!(
            step(state, UpdateEvent::StageFailed),
            (UpdateState::Failed(reason), UpdateAction::Stop)
        );
    }
}

#[test]
fn ended_runs_ignore_every_event() {
    let ended = [
        UpdateState::UpToDate,
        UpdateState::Done,
        UpdateState::Failed(FailureReason::Download),
    ];
    let mut events = successful();
    events.push(UpdateEvent::StageFailed);
    events.push(UpdateEvent::VersionsResolved { update_needed: false });
    for state in ended {
        for event in &events {
            assert_eq!(step(state, *event), (state, UpdateAction::Stop));
        }
        assert_eq!(run(state, &events), state);
    }
}

#[test]
fn events_out_of_order_fail_the_run() {
    assert_eq!(
        step(UpdateState::Idle, UpdateEvent::ArtifactDownloaded).0,
        UpdateState::Failed(FailureReason::OutOfOrder)
    );
    assert_eq!(
        step(UpdateState::Downloading, UpdateEvent::MarkerWritten).0,
        UpdateState::Failed(FailureReason::OutOfOrder)
    );
    assert_eq!(
        step(UpdateState::Extracting, UpdateEvent::SnapshotTaken).0,
        UpdateState::Failed(FailureReason::OutOfOrder)
    );
    assert_eq!(
        step(UpdateState::CheckingVersion, UpdateEvent::SessionStarted).0,
        UpdateState::Failed(FailureReason::OutOfOrder)
    );
}

#[test]
fn a_failed_stage_never_leads_to_done() {
    for failing in 1..6 {
        let mut events = successful();
        events.insert(failing, UpdateEvent::StageFailed);
        let end = run(UpdateState::Idle, &events);
        assert!(matches!(end, UpdateState::Failed(_)));
    }
}

#[test]
fn a_skipped_stage_never_leads_to_done() {
    for skipped in 0..6 {
        let mut events = successful();
        events.remove(skipped);
        assert_ne!(run(UpdateState::Idle, &events), UpdateState::Done);
    }
}

#[test]
fn run_over_no_events_stays() {
    assert_eq!(run(UpdateState::Extracting, &Vec::new()), UpdateState::Extracting);
}

#[test]
fn failure_reason_messages() {
    assert_eq!(FailureReason::Network.message(), "the remote version could not be fetched");
    assert_eq!(FailureReason::Download.message(), "the archive could not be downloaded");
    assert_eq!(FailureReason::Extract.message(), "the archive could not be extracted");
    assert_eq!(FailureReason::Backup.message(), "the installation could not be backed up");
    assert_eq!(FailureReason::Apply.message(), "the new version could not be recorded");
    assert_eq!(FailureReason::OutOfOrder.message(), "the stages ran out of order");
}
