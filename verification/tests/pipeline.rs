use dev_dashboard::catalog::default_catalog;
use dev_dashboard::pipeline::{
    compose_url, error_text, on_status, resolve_ids, run_scripted, start, ChunkEvent,
    DownloadScript, FailureReason, InstallerError, InstallerState, ProgressFraction,
    ProgressMessage,
};

fn ok_script(chunks: Vec<ChunkEvent>, content_length: u64) -> DownloadScript {
    DownloadScript {
        status: 200,
        content_length,
        artifact_exists: false,
        remove_existing_ok: true,
        create_ok: true,
        chunks,
        spawn_ok: true,
        wait_ok: true,
        failure_cleanup_ok: true,
        final_delete_ok: true,
    }
}

fn chunk(len: u64) -> ChunkEvent {
    ChunkEvent::Chunk { len, write_ok: true }
}

#[test]
fn empty_selection_fails_synchronously_with_no_messages() {
    let catalog = default_catalog();
    let selected: Vec<Vec<u8>> = Vec::new();
    match start(&selected, &catalog) {
        Err(e) => assert_eq!(e, InstallerError::NoAppsSelected),
        Ok(_) => panic!("an empty selection must not start a run"),
    }
    let report = run_scripted(&selected, &catalog, &ok_script(vec![chunk(1)], 1));
    assert_eq!(report.messages.len(), 0);
    assert_eq!(report.outcome, Err(InstallerError::NoAppsSelected));
    assert!(!report.artifact_present);
}

#[test]
fn url_joins_resolved_identifiers_and_skips_unknown_names() {
    let catalog = default_catalog();
    let selected = vec![
        b"Chrome".to_vec(),
        b"No Such App".to_vec(),
        b"Zoom".to_vec(),
    ];
    let ids = resolve_ids(&selected, &catalog);
    assert_eq!(ids, vec![b"chrome".to_vec(), b"zoom".to_vec()]);
    let url = compose_url(&ids);
    assert_eq!(url, b"https://ninite.com/chrome-zoom/ninite.exe".to_vec());
}

#[test]
fn start_announces_the_download() {
    let catalog = default_catalog();
    let selected = vec![b"Firefox".to_vec()];
    match start(&selected, &catalog) {
        Ok((session, first)) => {
            assert_eq!(session.url, b"https://ninite.com/firefox/ninite.exe".to_vec());
            assert_eq!(session.downloaded, 0);
            assert_eq!(
                first,
                ProgressMessage::StateChanged(InstallerState::Downloading)
            );
        }
        Err(_) => panic!("a non-empty selection must start"),
    }
}

#[test]
fn four_chunks_of_known_total_reach_exactly_whole() {
    let catalog = default_catalog();
    let selected = vec![b"VLC".to_vec()];
    let script = ok_script(
        vec![chunk(2500), chunk(2500), chunk(2500), chunk(2500)],
        10_000,
    );
    let report = run_scripted(&selected, &catalog, &script);
    assert_eq!(report.outcome, Ok(()));

    let expected = vec![
        ProgressMessage::StateChanged(InstallerState::Downloading),
        ProgressMessage::ProgressUpdate(ProgressFraction { numer: 2500, denom: 10_000 }),
        ProgressMessage::ProgressUpdate(ProgressFraction { numer: 5000, denom: 10_000 }),
        ProgressMessage::ProgressUpdate(ProgressFraction { numer: 7500, denom: 10_000 }),
        ProgressMessage::ProgressUpdate(ProgressFraction { numer: 10_000, denom: 10_000 }),
        ProgressMessage::StateChanged(InstallerState::Installing),
        ProgressMessage::StateChanged(InstallerState::Idle),
    ];
    assert_eq!(report.messages, expected);

    // the updates never decrease and the last one reads exactly whole,
    // followed by the transition to installing
    let mut last_numer = 0;
    for m in &report.messages {
        if let ProgressMessage::ProgressUpdate(f) = m {
            assert!(f.numer >= last_numer);
            assert_eq!(f.denom, 10_000);
            last_numer = f.numer;
        }
    }
    assert_eq!(last_numer, 10_000);
    assert!(!report.artifact_present);
}

#[test]
fn unknown_content_length_reports_no_progress() {
    let catalog = default_catalog();
    let selected = vec![b"VLC".to_vec()];
    let script = ok_script(vec![chunk(4000), chunk(4000)], 0);
    let report = run_scripted(&selected, &catalog, &script);
    assert_eq!(report.outcome, Ok(()));
    let expected = vec![
        ProgressMessage::StateChanged(InstallerState::Downloading),
        ProgressMessage::StateChanged(InstallerState::Installing),
        ProgressMessage::StateChanged(InstallerState::Idle),
    ];
    assert_eq!(report.messages, expected);
}

#[test]
fn non_success_status_fails_once_and_never_installs() {
    let catalog = default_catalog();
    let selected = vec![b"GIMP".to_vec()];
    let mut script = ok_script(vec![chunk(100)], 100);
    script.status = 404;
    let report = run_scripted(&selected, &catalog, &script);

    let expected = vec![
        ProgressMessage::StateChanged(InstallerState::Downloading),
        ProgressMessage::Failed(FailureReason::HttpStatus(404)),
    ];
    assert_eq!(report.messages, expected);
    assert_eq!(
        report.outcome,
        Err(InstallerError::DownloadFailed(FailureReason::HttpStatus(404)))
    );
    assert!(!report.artifact_present);
    let failed = report
        .messages
        .iter()
        .filter(|m| matches!(m, ProgressMessage::Failed(_)))
        .count();
    assert_eq!(failed, 1);
    assert!(!report
        .messages
        .iter()
        .any(|m| *m == ProgressMessage::StateChanged(InstallerState::Installing)));
}

#[test]
fn status_judgement_bounds() {
    assert!(on_status(200).is_ok());
    assert!(on_status(299).is_ok());
    assert!(on_status(199).is_err());
    assert!(on_status(300).is_err());
    assert!(on_status(500).is_err());
}

#[test]
fn locked_artifact_aborts_before_any_write() {
    let catalog = default_catalog();
    let selected = vec![b"PuTTY".to_vec()];
    let mut script = ok_script(vec![chunk(100)], 100);
    script.artifact_exists = true;
    script.remove_existing_ok = false;
    let report = run_scripted(&selected, &catalog, &script);
    assert_eq!(
        report.outcome,
        Err(InstallerError::DownloadFailed(FailureReason::LockedArtifact))
    );
    assert_eq!(
        report.messages,
        vec![
            ProgressMessage::StateChanged(InstallerState::Downloading),
            ProgressMessage::Failed(FailureReason::LockedArtifact),
        ]
    );
    // the locked artifact is still there
    assert!(report.artifact_present);
}

#[test]
fn create_failure_aborts_cleanly() {
    let catalog = default_catalog();
    let selected = vec![b"PuTTY".to_vec()];
    let mut script = ok_script(vec![chunk(100)], 100);
    script.create_ok = false;
    let report = run_scripted(&selected, &catalog, &script);
    assert_eq!(
        report.outcome,
        Err(InstallerError::DownloadFailed(FailureReason::CreateFailed))
    );
    assert!(!report.artifact_present);
}

#[test]
fn write_failure_removes_the_partial_artifact() {
    let catalog = default_catalog();
    let selected = vec![b"PuTTY".to_vec()];
    let script = ok_script(
        vec![chunk(2500), ChunkEvent::Chunk { len: 2500, write_ok: false }],
        10_000,
    );
    let report = run_scripted(&selected, &catalog, &script);
    assert_eq!(
        report.outcome,
        Err(InstallerError::DownloadFailed(FailureReason::WriteFailed))
    );
    assert_eq!(
        report.messages,
        vec![
            ProgressMessage::StateChanged(InstallerState::Downloading),
            ProgressMessage::ProgressUpdate(ProgressFraction { numer: 2500, denom: 10_000 }),
            ProgressMessage::Failed(FailureReason::WriteFailed),
        ]
    );
    assert!(!report.artifact_present);
}

#[test]
fn transport_failure_stops_the_stream() {
    let catalog = default_catalog();
    let selected = vec![b"PuTTY".to_vec()];
    let script = ok_script(vec![chunk(2500), ChunkEvent::TransportFailed], 10_000);
    let report = run_scripted(&selected, &catalog, &script);
    assert_eq!(
        report.outcome,
        Err(InstallerError::DownloadFailed(FailureReason::Transport))
    );
    assert!(!report.artifact_present);
}

#[test]
fn spawn_and_wait_failures_fail_after_installing() {
    let catalog = default_catalog();
    let selected = vec![b"PuTTY".to_vec()];

    let mut script = ok_script(vec![chunk(10)], 10);
    script.spawn_ok = false;
    let report = run_scripted(&selected, &catalog, &script);
    assert_eq!(
        report.outcome,
        Err(InstallerError::DownloadFailed(FailureReason::SpawnFailed))
    );
    assert_eq!(
        report.messages.last(),
        Some(&ProgressMessage::Failed(FailureReason::SpawnFailed))
    );

    let mut script = ok_script(vec![chunk(10)], 10);
    script.wait_ok = false;
    let report = run_scripted(&selected, &catalog, &script);
    assert_eq!(
        report.outcome,
        Err(InstallerError::DownloadFailed(FailureReason::WaitFailed))
    );
}

#[test]
fn failure_cleanup_left_artifact_is_reported() {
    let catalog = default_catalog();
    let selected = vec![b"PuTTY".to_vec()];
    let mut script = ok_script(
        vec![ChunkEvent::Chunk { len: 10, write_ok: false }],
        10,
    );
    script.failure_cleanup_ok = false;
    let report = run_scripted(&selected, &catalog, &script);
    assert!(report.artifact_present);
}

#[test]
fn successful_run_best_effort_delete_may_leave_artifact() {
    let catalog = default_catalog();
    let selected = vec![b"PuTTY".to_vec()];
    let mut script = ok_script(vec![chunk(10)], 10);
    script.final_delete_ok = false;
    let report = run_scripted(&selected, &catalog, &script);
    // the failed cleanup is logged, not fatal
    assert_eq!(report.outcome, Ok(()));
    assert!(report.artifact_present);
}

#[test]
fn download_saturates_past_announced_total() {
    let catalog = default_catalog();
    let selected = vec![b"PuTTY".to_vec()];
    // the server sends more than it announced: the fraction stays whole
    let script = ok_script(vec![chunk(80), chunk(40)], 100);
    let report = run_scripted(&selected, &catalog, &script);
    assert_eq!(report.outcome, Ok(()));
    assert_eq!(
        report.messages[2],
        ProgressMessage::ProgressUpdate(ProgressFraction { numer: 100, denom: 100 })
    );
}

#[test]
fn error_texts() {
    assert_eq!(
        error_text(&InstallerError::NoAppsSelected),
        b"No apps selected".to_vec()
    );
    assert_eq!(
        error_text(&InstallerError::DownloadFailed(FailureReason::HttpStatus(404))),
        b"Download failed: Server returned: 404".to_vec()
    );
    assert_eq!(
        error_text(&InstallerError::DownloadFailed(FailureReason::WriteFailed)),
        b"Download failed: Failed to write installer".to_vec()
    );
}
