//! What the shortcut and the popup's commands decide: which request is
//! current, when a cut selection may be pasted over, restored or retried,
//! and which captured texts are translated.

use vstd::prelude::*;
use vstd::string::StringSliceAdditionalSpecFns;
use crate::selection::{selection_for, PendingSelection, Selection};
use crate::text::{is_blank, is_blank_spec};

verus! {

/// The largest captured text, in UTF-8 bytes, that is sent for translation.
pub const MAX_TEXT_LENGTH: usize = 5000;

/// The request id that follows `id`; ids wrap around like an atomic counter.
pub open spec fn next_id(id: u64) -> u64 {
    if id == u64::MAX {
        0
    } else {
        (id + 1) as u64
    }
}

/// The translation counter and the cut selection, as plain values.
pub struct SessionView {
    pub translation_id: u64,
    pub pending: Option<Selection>,
}

/// The shortcut and popup state shared by the commands: the id of the
/// current translation request and the selection that is still outstanding.
pub struct Session {
    translation_id: u64,
    pending: PendingSelection,
}

impl View for Session {
    type V = SessionView;

    closed spec fn view(&self) -> SessionView {
        SessionView { translation_id: self.translation_id, pending: self.pending@ }
    }
}

/// What a press of the shortcut does.
pub enum ShortcutStart {
    /// A cut selection is still outstanding: only show the popup again.
    ShowPending,
    /// Capture a new selection for this request id.
    Capture(u64),
}

/// How a press of the shortcut changes the session.
pub open spec fn start_shortcut_spec(s: SessionView) -> (SessionView, ShortcutStart) {
    if s.pending is Some {
        (s, ShortcutStart::ShowPending)
    } else {
        (
            SessionView { translation_id: next_id(s.translation_id), ..s },
            ShortcutStart::Capture(next_id(s.translation_id)),
        )
    }
}

/// What becomes of captured text.
pub enum CapturedText {
    /// Nothing was selected: nothing happens.
    Empty,
    /// Blank or longer than the limit: it is pasted back and the user is told.
    Unusable,
    /// It is kept as the pending selection and translated.
    Usable,
}

/// How captured text is judged.
pub open spec fn classify_spec(text: &str) -> CapturedText {
    if text@.len() == 0 {
        CapturedText::Empty
    } else if is_blank_spec(text@) || text.spec_bytes().len() as usize > MAX_TEXT_LENGTH {
        CapturedText::Unusable
    } else {
        CapturedText::Usable
    }
}

/// Judges captured text: empty, unusable (blank or over the byte limit), or usable.
pub fn classify_capture(text: &str) -> (r: CapturedText)
    ensures
        r == classify_spec(text),
{
    if text.is_empty() {
        CapturedText::Empty
    } else if is_blank(text) || text.len() > MAX_TEXT_LENGTH {
        CapturedText::Unusable
    } else {
        CapturedText::Usable
    }
}

/// The message shown after unusable text was put back: the reason, or, when
/// putting it back failed, that failure and how to recover by hand.
pub fn unusable_capture_message(restored: Result<(), String>) -> (r: String)
    ensures
        restored is Ok ==> r@ == "テキストが空白のみ、または長すぎます（最大 5000 バイト）。短いテキストを選択してください。"@,
        restored matches Err(e) ==> r@ == e@ + " 原文はクリップボードから手動で復元してください。"@,
{
    match restored {
        Ok(()) => "テキストが空白のみ、または長すぎます（最大 5000 バイト）。短いテキストを選択してください。".to_owned(),
        Err(e) => {
            let mut message = e;
            message.append(" 原文はクリップボードから手動で復元してください。");
            message
        },
    }
}

/// The message shown when the original could not be pasted back but was put on the clipboard.
pub fn restore_copied_message(error: &str) -> (r: String)
    ensures
        r@ == error@ + " 原文をクリップボードにコピーしました。貼り付け先を確認して手動で復元してください。"@,
{
    let mut message = error.to_owned();
    message.append(" 原文をクリップボードにコピーしました。貼り付け先を確認して手動で復元してください。");
    message
}

/// How a paste of the translation for `request_id` that succeeded changes the session.
pub open spec fn paste_done_spec(s: SessionView, request_id: u64) -> SessionView {
    SessionView {
        translation_id: next_id(s.translation_id),
        pending: if selection_for(s.pending, request_id) is Some {
            None
        } else {
            s.pending
        },
    }
}

/// How a restore command for `request_id` changes the session, and the
/// selection it consumes.
pub open spec fn begin_restore_spec(s: SessionView, request_id: u64) -> (SessionView, Option<Selection>) {
    match selection_for(s.pending, request_id) {
        Some(sel) => (SessionView { translation_id: next_id(s.translation_id), pending: None }, Some(sel)),
        None => (s, None),
    }
}

/// How a retry command for `request_id` changes the session, and what it yields.
pub open spec fn retry_spec(s: SessionView, request_id: u64) -> (SessionView, Result<(u64, Selection), Seq<char>>) {
    match selection_for(s.pending, request_id) {
        None => (s, Err("再試行できる翻訳がありません。"@)),
        Some(sel) => {
            let next = next_id(s.translation_id);
            let moved = Selection { request_id: next, ..sel };
            (SessionView { translation_id: next, pending: Some(moved) }, Ok((next, moved)))
        },
    }
}

fn advance(id: u64) -> (r: u64)
    ensures
        r == next_id(id),
{
    if id == u64::MAX {
        0
    } else {
        id + 1
    }
}

impl Session {
    pub fn new() -> (r: Self)
        ensures
            r@.translation_id == 0,
            r@.pending is None,
    {
        Session { translation_id: 0, pending: PendingSelection::default() }
    }

    /// The id of the current translation request.
    pub fn translation_id(&self) -> (r: u64)
        ensures
            r == self@.translation_id,
    {
        self.translation_id
    }

    /// Whether results for `request_id` may still be shown.
    pub fn is_current(&self, request_id: u64) -> (r: bool)
        ensures
            r == (self@.translation_id == request_id),
    {
        self.translation_id == request_id
    }

    /// The outstanding selection, if any.
    pub fn current(&self) -> (r: Option<&Selection>)
        ensures
            r is Some <==> self@.pending is Some,
            r is Some ==> self@.pending == Some(*r->0),
    {
        self.pending.current()
    }

    /// A press of the shortcut: show the outstanding cut again, or start a new request.
    pub fn start_shortcut(&mut self) -> (r: ShortcutStart)
        ensures
            (final(self)@, r) == start_shortcut_spec(old(self)@),
    {
        if self.pending.current().is_some() {
            return ShortcutStart::ShowPending;
        }
        self.translation_id = advance(self.translation_id);
        ShortcutStart::Capture(self.translation_id)
    }

    /// Keeps captured, usable text as the selection of `request_id`.
    pub fn accept_capture(&mut self, request_id: u64, text: String, source: usize)
        requires
            old(self)@.pending is None,
        ensures
            final(self)@ == (SessionView {
                pending: Some(Selection { request_id, text, source }),
                ..old(self)@
            }),
    {
        self.pending.begin(Selection { request_id, text, source });
    }

    /// The window to paste the translation of `request_id` into, unless that
    /// request no longer holds the selection.
    pub fn paste_target(&self, request_id: u64) -> (r: Result<usize, String>)
        ensures
            match selection_for(self@.pending, request_id) {
                Some(sel) => r == Ok::<usize, String>(sel.source),
                None => r matches Err(m) && m@ == "この翻訳はすでに終了しています。"@,
            },
    {
        match self.pending.get(request_id) {
            Some(sel) => Ok(sel.source),
            None => Err("この翻訳はすでに終了しています。".to_owned()),
        }
    }

    /// The translation of `request_id` was pasted: its selection is consumed
    /// and the request stops being current.
    pub fn paste_done(&mut self, request_id: u64)
        ensures
            final(self)@ == paste_done_spec(old(self)@, request_id),
    {
        let _ = self.pending.take(request_id);
        self.translation_id = advance(self.translation_id);
    }

    /// Starts restoring the original text of `request_id`: the selection is
    /// consumed first, so a repeated or delayed command cannot paste again.
    pub fn begin_restore(&mut self, request_id: u64) -> (r: Option<Selection>)
        ensures
            (final(self)@, r) == begin_restore_spec(old(self)@, request_id),
    {
        let taken = self.pending.take(request_id);
        if taken.is_some() {
            self.translation_id = advance(self.translation_id);
        }
        taken
    }

    /// Pasting the original of a restore back failed with `error`. When it
    /// could at least be copied to the clipboard, the user is told so and the
    /// command fails asking for a manual restore; otherwise the selection is
    /// kept, so that the restore can be tried again. Returns the notice to
    /// show, if any, and the error the command answers.
    pub fn restore_failed(&mut self, selection: Selection, error: &str, copied: bool) -> (r: (Option<String>, String))
        requires
            old(self)@.pending is None,
        ensures
            copied ==> {
                &&& final(self)@ == old(self)@
                &&& r.0 matches Some(n) && n@ == error@
                    + " 原文をクリップボードにコピーしました。貼り付け先を確認して手動で復元してください。"@
                &&& r.1@ == "原文はクリップボードから手動で復元してください。"@
            },
            !copied ==> {
                &&& final(self)@ == (SessionView { pending: Some(selection), ..old(self)@ })
                &&& r.0 is None
                &&& r.1@ == "原文を復元できませんでした。もう一度お試しください。"@
            },
    {
        if copied {
            (Some(restore_copied_message(error)), "原文はクリップボードから手動で復元してください。".to_owned())
        } else {
            self.pending.begin(selection);
            (None, "原文を復元できませんでした。もう一度お試しください。".to_owned())
        }
    }

    /// Retries the translation of `request_id` as a new request: the selection
    /// keeps its text and source window and moves to the new id.
    pub fn retry(&mut self, request_id: u64) -> (r: Result<(u64, Selection), String>)
        ensures
            final(self)@ == retry_spec(old(self)@, request_id).0,
            match retry_spec(old(self)@, request_id).1 {
                Ok(v) => r == Ok::<(u64, Selection), String>(v),
                Err(m) => r matches Err(e) && e@ == m,
            },
    {
        if self.pending.get(request_id).is_none() {
            return Err("再試行できる翻訳がありません。".to_owned());
        }
        let next = advance(self.translation_id);
        self.translation_id = next;
        match self.pending.retry(request_id, next) {
            Some(sel) => Ok((next, sel)),
            None => Err("再試行できる翻訳がありません。".to_owned()),
        }
    }
}

/// A paste or restore that finished leaves no selection for that request:
/// a duplicate or delayed command can neither paste nor restore again, and
/// results of the finished request are no longer current.
pub proof fn law_finished_selection_cannot_act_again(s: SessionView, request_id: u64)
    requires
        selection_for(s.pending, request_id) is Some,
    ensures
        selection_for(paste_done_spec(s, request_id).pending, request_id) is None,
        selection_for(begin_restore_spec(s, request_id).0.pending, request_id) is None,
        begin_restore_spec(begin_restore_spec(s, request_id).0, request_id).1 is None,
        paste_done_spec(s, request_id).translation_id != s.translation_id,
        begin_restore_spec(s, request_id).0.translation_id != s.translation_id,
{
}

/// A retry keeps the original text and target window, moves them to a new
/// current request, and the old request id can no longer act on them.
pub proof fn law_retry_keeps_target(s: SessionView, request_id: u64)
    requires
        selection_for(s.pending, request_id) is Some,
    ensures
        ({
            let (t, r) = retry_spec(s, request_id);
            let old_sel = s.pending->0;
            &&& r matches Ok((next, sel)) && {
                &&& sel.text == old_sel.text
                &&& sel.source == old_sel.source
                &&& t.translation_id == next
                &&& selection_for(t.pending, next) == Some(sel)
                &&& next != request_id ==> selection_for(t.pending, request_id) is None
            }
        }),
{
}

/// A press of the shortcut never replaces a selection that is still outstanding.
pub proof fn law_shortcut_keeps_outstanding_selection(s: SessionView)
    requires
        s.pending is Some,
    ensures
        start_shortcut_spec(s).0 == s,
        start_shortcut_spec(s).1 is ShowPending,
{
}

/// A translation needs an API key; without one the user is told to register it.
pub fn require_api_key(api_key: &str) -> (r: Result<(), String>)
    ensures
        r is Ok <==> api_key@.len() > 0,
        r matches Err(m) ==> m@ == "API キーが設定されていません。設定画面で Google API キーを登録してください。"@,
{
    if api_key.is_empty() {
        Err("API キーが設定されていません。設定画面で Google API キーを登録してください。".to_owned())
    } else {
        Ok(())
    }
}

/// How many times a translation is attempted before its error is shown.
pub const MAX_TRANSLATION_ATTEMPTS: u64 = 3;

/// Work for a request goes on only while it is current; otherwise the
/// translation was cancelled.
pub fn ensure_current(still_current: bool) -> (r: Result<(), String>)
    ensures
        r is Ok <==> still_current,
        r matches Err(m) ==> m@ == "翻訳をキャンセルしました"@,
{
    if still_current {
        Ok(())
    } else {
        Err("翻訳をキャンセルしました".to_owned())
    }
}

/// After attempt `attempt` (counted from 1) failed: how many milliseconds to
/// wait before trying again, or `None` to give up and show the error. A
/// translation that was already shown is never retried, so the English text
/// the user may already be using is not replaced; nor is one that stopped
/// being current.
pub fn retry_delay_ms(attempt: u64, displayed: bool, still_current: bool) -> (r: Option<u64>)
    ensures
        r is Some <==> (!displayed && still_current && attempt < MAX_TRANSLATION_ATTEMPTS),
        r matches Some(d) ==> d == 500 * attempt,
{
    if displayed || !still_current || attempt >= MAX_TRANSLATION_ATTEMPTS {
        None
    } else {
        Some(500 * attempt)
    }
}

} // verus!
