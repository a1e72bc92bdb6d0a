use drsym_launcher::provision::{
    after_extract, after_fetch, dr_download_url, dr_tool_download_url, url_file_name, zip_stem,
    AfterFetch, ExtractOutcome, FetchOutcome, ProvisionOutcome, ProvisionState, Provisioner,
};

#[test]
fn urls_are_the_two_known_assets() {
    assert!(dr_download_url().ends_with("DynamoRIO-Windows-9.0.1.zip"));
    assert!(dr_tool_download_url().ends_with("DrSymLogger.dll"));
}

#[test]
fn url_file_name_is_last_segment() {
    assert_eq!(url_file_name(dr_download_url()), "DynamoRIO-Windows-9.0.1.zip");
    assert_eq!(url_file_name(dr_tool_download_url()), "DrSymLogger.dll");
    assert_eq!(url_file_name("name-without-slash"), "name-without-slash");
}

#[test]
fn zip_stem_strips_the_archive_ending() {
    assert_eq!(zip_stem("DynamoRIO-Windows-9.0.1.zip"), "DynamoRIO-Windows-9.0.1");
    assert_eq!(zip_stem("plain.dll"), "plain.dll");
    assert_eq!(zip_stem("abc"), "abc");
}

#[test]
fn fetched_binary_resolves_under_destination() {
    let r = after_fetch(dr_tool_download_url(), "C:\\dest", false, &FetchOutcome::Fetched);
    match r {
        AfterFetch::Done { outcome: ProvisionOutcome::Success { resolved_path } } => {
            assert_eq!(resolved_path, "C:\\dest\\DrSymLogger.dll");
        }
        other => panic!("expected a resolved path, got {:?}", other),
    }
}

#[test]
fn fetched_archive_goes_on_to_unpacking() {
    let r = after_fetch(dr_download_url(), "C:\\dest", true, &FetchOutcome::Fetched);
    match r {
        AfterFetch::RunExtract { archive_path } => {
            assert_eq!(archive_path, "DynamoRIO-Windows-9.0.1.zip");
        }
        other => panic!("expected an unpacking step, got {:?}", other),
    }
}

#[test]
fn scenario_c_failed_fetch_delivers_failure_never_success() {
    let r = after_fetch(
        dr_tool_download_url(),
        "C:\\dest",
        false,
        &FetchOutcome::HttpFailure { status: 404 },
    );
    match r {
        AfterFetch::Done { outcome: ProvisionOutcome::Failure { message } } => {
            assert!(message.contains("download failed"));
        }
        other => panic!("a failed fetch must deliver a failure, got {:?}", other),
    }
    let mut p = Provisioner::new();
    let task = p.start(dr_tool_download_url(), "C:\\dest", false, false);
    assert!(task.is_some());
    let outcome = ProvisionOutcome::Failure { message: "download failed".to_string() };
    let path = p.complete(outcome);
    assert!(path.is_none());
    assert!(matches!(p.state, ProvisionState::Idle));
}

#[test]
fn io_failure_on_fetch_delivers_failure() {
    let r = after_fetch(dr_download_url(), "C:\\dest", true, &FetchOutcome::IoFailure);
    assert!(matches!(
        r,
        AfterFetch::Done { outcome: ProvisionOutcome::Failure { .. } }
    ));
}

#[test]
fn extraction_success_resolves_to_the_stem_directory() {
    let r = after_extract(dr_download_url(), "C:\\dest", &ExtractOutcome::Extracted);
    match r {
        ProvisionOutcome::Success { resolved_path } => {
            assert_eq!(resolved_path, "C:\\dest\\DynamoRIO-Windows-9.0.1");
        }
        other => panic!("expected a resolved path, got {:?}", other),
    }
}

#[test]
fn extraction_failures_deliver_failure() {
    let r = after_extract(dr_download_url(), "C:\\dest", &ExtractOutcome::ArchiveFailure);
    assert!(matches!(r, ProvisionOutcome::Failure { .. }));
    let r = after_extract(dr_download_url(), "C:\\dest", &ExtractOutcome::IoFailure);
    assert!(matches!(r, ProvisionOutcome::Failure { .. }));
}

#[test]
fn at_most_one_task_runs_per_kind() {
    let mut p = Provisioner::new();
    assert!(matches!(p.state, ProvisionState::Idle));
    let first = p.start(dr_download_url(), "C:\\dest", true, false);
    assert!(first.is_some());
    assert!(matches!(p.state, ProvisionState::Running));
    let second = p.start(dr_download_url(), "C:\\dest", true, false);
    assert!(second.is_none());
    let path = p.complete(ProvisionOutcome::Success { resolved_path: "C:\\dest\\x".to_string() });
    assert_eq!(path.unwrap(), "C:\\dest\\x");
    assert!(matches!(p.state, ProvisionState::Idle));
}

#[test]
fn starting_is_pointless_when_already_valid() {
    let mut p = Provisioner::new();
    let task = p.start(dr_download_url(), "C:\\dest", true, true);
    assert!(task.is_none());
    assert!(matches!(p.state, ProvisionState::Idle));
}

#[test]
fn task_request_carries_its_own_inputs() {
    let mut p = Provisioner::new();
    let task = p.start(dr_download_url(), "C:\\dest", true, false).unwrap();
    assert_eq!(task.url, dr_download_url());
    assert_eq!(task.dest_dir, "C:\\dest");
    assert!(task.is_archive);
}
