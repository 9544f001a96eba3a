use adsys_mount::AdsysMountError;
use adsys_mount::AggregateState;
use adsys_mount::ErrorDescriptor;
use adsys_mount::MountStatus;
use adsys_mount::Msg;
use adsys_mount::completion_to_msg;
use adsys_mount::handle_user_mounts;
use adsys_mount::parse_entries;

fn success(path: &str) -> Msg {
    Msg { path: path.to_string(), status: Ok(MountStatus::Done) }
}

fn failure(path: &str, already_mounted: bool, message: &str) -> Msg {
    Msg {
        path: path.to_string(),
        status: Err(ErrorDescriptor { already_mounted, message: message.to_string() }),
    }
}

#[test]
fn two_entries_both_succeed_is_success() {
    let manifest = "a://x\n[anonymous]a://y\n";
    let entries = parse_entries(manifest);
    assert_eq!(entries.len(), 2);
    assert_eq!(entries[0].mount_path, "a://x");
    assert!(!entries[0].is_anonymous);
    assert_eq!(entries[1].mount_path, "a://y");
    assert!(entries[1].is_anonymous);

    let outcomes = vec![success("a://x"), success("a://y")];
    assert_eq!(handle_user_mounts(Some(manifest), outcomes), Ok(()));
}

#[test]
fn already_mounted_failure_is_success() {
    let manifest = "smb://host/share\n";
    assert_eq!(parse_entries(manifest).len(), 1);
    let outcomes = vec![failure("smb://host/share", true, "location is already mounted")];
    assert_eq!(handle_user_mounts(Some(manifest), outcomes), Ok(()));
}

#[test]
fn other_failure_is_mount_error_with_nonzero_exit() {
    let manifest = "smb://host/share\n";
    assert_eq!(parse_entries(manifest).len(), 1);
    let outcomes = vec![failure("smb://host/share", false, "connection refused")];
    let got = handle_user_mounts(Some(manifest), outcomes);
    assert_eq!(got, Err(AdsysMountError::MountError));
    assert_ne!(got.unwrap_err().exit_code(), 0);
}

#[test]
fn unreadable_manifest_is_parse_error() {
    assert_eq!(handle_user_mounts(None, Vec::new()), Err(AdsysMountError::ParseError));
}

#[test]
fn empty_manifest_is_immediate_success() {
    assert_eq!(handle_user_mounts(Some(""), Vec::new()), Ok(()));
    assert_eq!(handle_user_mounts(Some("\n\n\n"), Vec::new()), Ok(()));
}

#[test]
fn all_already_mounted_failures_aggregate_to_success() {
    let manifest = "a://x\nb://y\nc://z\n";
    let outcomes = vec![
        failure("a://x", true, "already mounted"),
        failure("b://y", true, "already mounted"),
        failure("c://z", true, "already mounted"),
    ];
    assert_eq!(handle_user_mounts(Some(manifest), outcomes), Ok(()));
}

#[test]
fn one_real_failure_dominates_any_company() {
    let manifest = "a://x\nb://y\nc://z\nd://w\n";
    let outcomes = vec![
        success("a://x"),
        failure("b://y", true, "already mounted"),
        failure("c://z", false, "permission denied"),
        success("d://w"),
    ];
    assert_eq!(
        handle_user_mounts(Some(manifest), outcomes),
        Err(AdsysMountError::MountError)
    );
}

#[test]
fn verdict_is_order_independent() {
    let manifest = "a://x\nb://y\nc://z\n";
    let one_order = vec![
        success("a://x"),
        failure("b://y", false, "host unreachable"),
        failure("c://z", true, "already mounted"),
    ];
    let other_order = vec![
        failure("c://z", true, "already mounted"),
        failure("b://y", false, "host unreachable"),
        success("a://x"),
    ];
    let first = handle_user_mounts(Some(manifest), one_order);
    let second = handle_user_mounts(Some(manifest), other_order);
    assert_eq!(first, second);
    assert_eq!(first, Err(AdsysMountError::MountError));

    let all_good_one_way = vec![success("b://y"), success("a://x"), success("c://z")];
    let all_good_other_way = vec![success("c://z"), success("b://y"), success("a://x")];
    assert_eq!(
        handle_user_mounts(Some(manifest), all_good_one_way),
        handle_user_mounts(Some(manifest), all_good_other_way)
    );
}

#[test]
fn aggregate_state_counts_down_to_done() {
    let mut state = AggregateState::new(3);
    assert!(!state.is_done());
    assert!(state.process_msg(success("a://x")));
    assert!(state.process_msg(failure("b://y", true, "already mounted")));
    assert!(!state.process_msg(success("c://z")));
    assert!(state.is_done());
    assert_eq!(state.verdict(), Ok(()));
}

#[test]
fn aggregate_state_records_real_failures() {
    let mut state = AggregateState::new(2);
    assert!(state.process_msg(failure("a://x", false, "connection refused")));
    assert!(!state.process_msg(success("b://y")));
    assert!(state.is_done());
    assert_eq!(state.verdict(), Err(AdsysMountError::MountError));
}

#[test]
fn zero_pending_state_is_done_and_successful() {
    let state = AggregateState::new(0);
    assert!(state.is_done());
    assert_eq!(state.verdict(), Ok(()));
}

#[test]
fn unexpected_success_status_is_not_a_failure() {
    let manifest = "a://x\n";
    let outcomes = vec![Msg { path: "a://x".to_string(), status: Ok(MountStatus::Asked) }];
    assert_eq!(handle_user_mounts(Some(manifest), outcomes), Ok(()));
}

#[test]
fn completion_to_msg_maps_success_to_done() {
    let m = completion_to_msg("a://x".to_string(), Ok(()));
    assert_eq!(m.path, "a://x");
    assert_eq!(m.status, Ok(MountStatus::Done));
}

#[test]
fn completion_to_msg_keeps_the_error() {
    let descriptor = ErrorDescriptor { already_mounted: false, message: "timed out".to_string() };
    let m = completion_to_msg("a://x".to_string(), Err(descriptor));
    assert_eq!(m.path, "a://x");
    assert_eq!(
        m.status,
        Err(ErrorDescriptor { already_mounted: false, message: "timed out".to_string() })
    );
}

#[test]
fn exit_codes_are_distinct_and_nonzero() {
    let mount = AdsysMountError::MountError.exit_code();
    let parse = AdsysMountError::ParseError.exit_code();
    let arg = AdsysMountError::ArgError.exit_code();
    assert_ne!(mount, 0);
    assert_ne!(parse, 0);
    assert_ne!(arg, 0);
    assert_ne!(mount, parse);
    assert_ne!(mount, arg);
    assert_ne!(parse, arg);
}
