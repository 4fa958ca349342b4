use english_input_assistant::updater::{
    after_build, after_check, after_confirm, begin_check, downloading, install_failed_message,
    install_prompt, AfterCheck, UpdateFlag, UpdateGuard, UpdateOutcome, UpdateProgress,
};

#[test]
fn concurrent_checks_are_rejected_and_retry_is_allowed_after_completion() {
    let mut flag = UpdateFlag::new();
    let guard = UpdateGuard::acquire(&mut flag).unwrap();
    assert!(UpdateGuard::acquire(&mut flag).is_none());
    guard.release(&mut flag);
    assert!(UpdateGuard::acquire(&mut flag).is_some());
}

#[test]
fn development_builds_never_update() {
    let mut flag = UpdateFlag::new();
    assert!(matches!(begin_check(true, &mut flag), Err(UpdateOutcome::Development)));
    assert!(!flag.is_busy());
}

#[test]
fn overlapping_check_is_answered_busy() {
    let mut flag = UpdateFlag::new();
    let first = begin_check(false, &mut flag);
    assert!(first.is_ok());
    assert!(flag.is_busy());
    assert!(matches!(begin_check(false, &mut flag), Err(UpdateOutcome::Busy)));
    if let Ok(guard) = first {
        guard.release(&mut flag);
    }
    assert!(!flag.is_busy());
    assert!(begin_check(false, &mut flag).is_ok());
}

#[test]
fn check_results_lead_to_the_next_step() {
    assert!(matches!(after_check(Ok(None)), Ok(AfterCheck::Done(UpdateOutcome::UpToDate))));
    match after_check(Ok(Some("1.2.3".to_string()))) {
        Ok(AfterCheck::Ask(version)) => assert_eq!(version, "1.2.3"),
        _ => panic!("a found version must be offered"),
    }
    match after_check(Err("offline".to_string())) {
        Err(message) => assert_eq!(message, "アップデートを確認できませんでした: offline"),
        Ok(_) => panic!("a failed check must be an error"),
    }
    assert_eq!(after_build(Err("bad key".to_string())).unwrap_err(), "アップデートを初期化できませんでした: bad key");
    assert!(after_build(Ok(())).is_ok());
}

#[test]
fn only_an_accepted_update_is_installed() {
    assert!(matches!(after_confirm(Ok(true)), Ok(None)));
    assert!(matches!(after_confirm(Ok(false)), Ok(Some(UpdateOutcome::Cancelled))));
    assert_eq!(after_confirm(Err("dialog".to_string())).unwrap_err(), "dialog");
}

#[test]
fn prompt_and_failure_messages_name_the_version_and_error() {
    assert_eq!(
        install_prompt("0.4.0"),
        "English Input Assistant 0.4.0 が利用可能です。今すぐインストールして再起動しますか？\n\n続行する前に設定を保存し、実行中の翻訳を完了してください。"
    );
    assert_eq!(install_failed_message("disk full"), "アップデートをインストールできませんでした: disk full");
}

#[test]
fn download_progress_accumulates_and_wraps() {
    let (received, progress) = downloading(100, 50, Some(1000));
    assert_eq!(received, 150);
    assert!(matches!(progress, UpdateProgress::Downloading { received: 150, total: Some(1000) }));
    let (wrapped, _) = downloading(u64::MAX, 2, None);
    assert_eq!(wrapped, 1);
}
