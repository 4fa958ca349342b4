use english_input_assistant::selection::{capture, focus_matches, PendingSelection, Selection};

fn selection(id: u64, source: usize) -> Selection {
    Selection { request_id: id, source, text: "private original".into() }
}

#[test]
fn completed_selection_cannot_be_restored_into_next_window() {
    let mut pending = PendingSelection::default();
    pending.begin(selection(1, 100));
    assert_eq!(pending.take(1).unwrap().source, 100);
    // A failed capture in another window does not create a selection.
    assert!(pending.take(1).is_none());
    assert!(pending.take(2).is_none());
    pending.begin(selection(3, 200));
    assert!(pending.take(1).is_none());
    assert_eq!(pending.take(3).unwrap().source, 200);
    assert!(pending.current().is_none());
}

#[test]
fn retry_keeps_original_target_and_rejects_old_commands() {
    let mut pending = PendingSelection::default();
    pending.begin(selection(1, 100));
    let retried = pending.retry(1, 2).unwrap();
    assert_eq!(retried.text, "private original");
    assert_eq!(retried.source, 100);
    assert!(pending.take(1).is_none());
    assert!(pending.retry(1, 3).is_none());
    assert_eq!(pending.take(2).unwrap().source, 100);
}

#[test]
fn failed_clipboard_clear_never_cuts_or_reads_stale_secret() {
    let result = capture(
        || Err("clipboard locked".into()),
        || panic!("must not cut"),
        || panic!("must not read old secret"),
    );
    assert_eq!(result.unwrap_err(), "clipboard locked");
}

#[test]
fn failed_cut_never_reads_clipboard() {
    assert!(capture(|| Ok(()), || Err("cut failed".into()),
        || panic!("must not read clipboard")).is_err());
    assert!(capture(|| Ok(()), || Ok(()), || Err("read failed".into())).is_err());
    assert_eq!(capture(|| Ok(()), || Ok(()), || Ok(String::new())).unwrap(), "");
}

#[test]
fn unknown_or_changed_foreground_is_not_confirmation() {
    assert!(!focus_matches(123, 0));
    assert!(!focus_matches(0, 0));
    assert!(!focus_matches(123, 456));
    assert!(focus_matches(123, 123));
}

#[test]
fn capture_returns_the_text_that_was_read() {
    let result = capture(|| Ok(()), || Ok(()), || Ok("selected text".to_string()));
    assert_eq!(result.unwrap(), "selected text");
}

#[test]
fn capture_reports_the_cut_error_itself() {
    let result = capture(|| Ok(()), || Err("cut failed".into()), || Ok("stale".to_string()));
    assert_eq!(result.unwrap_err(), "cut failed");
}

#[test]
fn get_only_answers_the_owning_request() {
    let mut pending = PendingSelection::default();
    assert!(pending.get(1).is_none());
    pending.begin(selection(7, 42));
    assert!(pending.get(6).is_none());
    let found = pending.get(7).unwrap();
    assert_eq!(found.source, 42);
    assert_eq!(found.text, "private original");
    // Looking does not consume.
    assert_eq!(pending.current().unwrap().request_id, 7);
}

#[test]
fn retry_of_a_foreign_request_changes_nothing() {
    let mut pending = PendingSelection::default();
    pending.begin(selection(4, 9));
    assert!(pending.retry(5, 6).is_none());
    assert_eq!(pending.current().unwrap().request_id, 4);
    assert_eq!(pending.take(4).unwrap().source, 9);
}
