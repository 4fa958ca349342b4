//! The decisions of an update check: who may run one, what each step's
//! result leads to, and how download progress is reported.

use vstd::prelude::*;

verus! {

/// How a check that did not install anything ended.
#[derive(Debug)]
pub enum UpdateOutcome {
    UpToDate,
    Cancelled,
    Busy,
    Development,
}

/// Progress of an accepted update.
#[derive(Clone, Debug)]
pub enum UpdateProgress {
    Downloading { received: u64, total: Option<u64> },
    Installing,
}

/// Whether an update check is running. One is shared by the startup check
/// and every Settings window, so that checks never overlap.
pub struct UpdateFlag {
    busy: bool,
}

impl View for UpdateFlag {
    type V = bool;

    closed spec fn view(&self) -> bool {
        self.busy
    }
}

impl UpdateFlag {
    pub fn new() -> (r: Self)
        ensures
            !r@,
    {
        UpdateFlag { busy: false }
    }

    /// Whether a check holds the flag.
    pub fn is_busy(&self) -> (r: bool)
        ensures
            r == self@,
    {
        self.busy
    }
}

/// Taking the flag when it is `busy`: whether it was granted, and the flag after.
pub open spec fn acquire_spec(busy: bool) -> (bool, bool) {
    (!busy, true)
}

/// The flag after it was given back.
pub open spec fn release_spec() -> bool {
    false
}

/// Proof that the holder runs the one update check allowed at a time.
pub struct UpdateGuard {
    held: (),
}

impl UpdateGuard {
    /// Takes the flag if no check holds it.
    pub fn acquire(flag: &mut UpdateFlag) -> (r: Option<UpdateGuard>)
        ensures
            (r is Some, final(flag)@) == acquire_spec(old(flag)@),
    {
        if flag.busy {
            None
        } else {
            flag.busy = true;
            Some(UpdateGuard { held: () })
        }
    }

    /// Gives the flag back when the check ends, however it ends.
    pub fn release(self, flag: &mut UpdateFlag)
        ensures
            final(flag)@ == release_spec(),
    {
        flag.busy = false;
    }
}

/// The start of a check: development builds never update, and a check
/// that overlaps a running one is answered `Busy`.
pub fn begin_check(is_development: bool, flag: &mut UpdateFlag) -> (r: Result<UpdateGuard, UpdateOutcome>)
    ensures
        is_development ==> (r matches Err(UpdateOutcome::Development) && final(flag)@ == old(flag)@),
        !is_development && old(flag)@ ==> (r matches Err(UpdateOutcome::Busy) && final(flag)@),
        !is_development && !old(flag)@ ==> r is Ok && final(flag)@,
{
    if is_development {
        return Err(UpdateOutcome::Development);
    }
    match UpdateGuard::acquire(flag) {
        Some(guard) => Ok(guard),
        None => Err(UpdateOutcome::Busy),
    }
}

/// What follows building the updater.
pub fn after_build(built: Result<(), String>) -> (r: Result<(), String>)
    ensures
        built is Ok ==> r is Ok,
        built matches Err(e) ==> r matches Err(m) && m@ == "アップデートを初期化できませんでした: "@ + e@,
{
    match built {
        Ok(()) => Ok(()),
        Err(e) => {
            let mut message = "アップデートを初期化できませんでした: ".to_owned();
            message.append(e.as_str());
            Err(message)
        },
    }
}

/// What follows asking the update server.
pub enum AfterCheck {
    /// Nothing newer is published.
    Done(UpdateOutcome),
    /// Ask the user whether to install this version now.
    Ask(String),
}

/// What follows asking for an update: the version found, none, or an error.
pub fn after_check(found: Result<Option<String>, String>) -> (r: Result<AfterCheck, String>)
    ensures
        found matches Ok(None) ==> r matches Ok(AfterCheck::Done(UpdateOutcome::UpToDate)),
        found matches Ok(Some(v)) ==> r matches Ok(AfterCheck::Ask(w)) && w@ == v@,
        found matches Err(e) ==> r matches Err(m) && m@ == "アップデートを確認できませんでした: "@ + e@,
{
    match found {
        Ok(None) => Ok(AfterCheck::Done(UpdateOutcome::UpToDate)),
        Ok(Some(version)) => Ok(AfterCheck::Ask(version)),
        Err(e) => {
            let mut message = "アップデートを確認できませんでした: ".to_owned();
            message.append(e.as_str());
            Err(message)
        },
    }
}

/// The question asked before installing `version`.
pub fn install_prompt(version: &str) -> (r: String)
    ensures
        r@ == "English Input Assistant "@ + version@
            + " が利用可能です。今すぐインストールして再起動しますか？\n\n続行する前に設定を保存し、実行中の翻訳を完了してください。"@,
{
    let mut message = "English Input Assistant ".to_owned();
    message.append(version);
    message.append(" が利用可能です。今すぐインストールして再起動しますか？\n\n続行する前に設定を保存し、実行中の翻訳を完了してください。");
    message
}

/// What follows the user's answer: install only when they accepted.
pub fn after_confirm(answer: Result<bool, String>) -> (r: Result<Option<UpdateOutcome>, String>)
    ensures
        answer matches Ok(true) ==> r matches Ok(None),
        answer matches Ok(false) ==> r matches Ok(Some(UpdateOutcome::Cancelled)),
        answer matches Err(e) ==> r matches Err(m) && m@ == e@,
{
    match answer {
        Ok(true) => Ok(None),
        Ok(false) => Ok(Some(UpdateOutcome::Cancelled)),
        Err(e) => Err(e),
    }
}

/// The message of a failed installation. Once the user accepted an
/// installation it is shown in a dialog, also for the startup check.
pub fn install_failed_message(error: &str) -> (r: String)
    ensures
        r@ == "アップデートをインストールできませんでした: "@ + error@,
{
    let mut message = "アップデートをインストールできませんでした: ".to_owned();
    message.append(error);
    message
}

/// Bytes received so far after a chunk of `chunk` bytes; the count wraps
/// like the unchecked `u64` sum it stands for.
pub open spec fn received_after(received: u64, chunk: usize) -> u64 {
    ((received + chunk) % 0x1_0000_0000_0000_0000) as u64
}

/// Accounts for a downloaded chunk and the progress to report for it.
pub fn downloading(received: u64, chunk: usize, total: Option<u64>) -> (r: (u64, UpdateProgress))
    ensures
        r.0 == received_after(received, chunk),
        r.1 == (UpdateProgress::Downloading { received: r.0, total }),
{
    let c = chunk as u64;
    let next = if received > u64::MAX - c {
        received - (u64::MAX - c) - 1
    } else {
        received + c
    };
    (next, UpdateProgress::Downloading { received: next, total })
}

/// Checks never overlap: once one check starts, a second is answered
/// `Busy`; after the first gives the flag back, the next one may start.
pub proof fn law_checks_never_overlap(busy: bool)
    ensures
        acquire_spec(busy).0 <==> !busy,
        !acquire_spec(acquire_spec(busy).1).0,
        acquire_spec(release_spec()).0,
{
}

} // verus!
