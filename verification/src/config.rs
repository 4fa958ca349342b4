//! Settings: the defaults, the global shortcut, and how the API key kept in
//! the system credential store is read and written.

use vstd::prelude::*;
use crate::llm::{default_model, default_model_value};
use crate::tts::{default_voice, default_voice_value};
use crate::text::str_eq;

verus! {

/// The desktop platform the app runs on.
pub enum Platform {
    MacOs,
    Windows,
    Other,
}

/// The shortcut that starts a translation when none is configured.
pub open spec fn default_shortcut_spec(platform: Platform) -> Seq<char> {
    match platform {
        Platform::MacOs => "Ctrl+Shift+Space"@,
        _ => "Ctrl+Alt+Space"@,
    }
}

/// The default shortcut: Ctrl+Shift+Space on macOS, Ctrl+Alt+Space elsewhere.
pub fn default_shortcut(platform: Platform) -> (r: String)
    ensures
        r@ == default_shortcut_spec(platform),
{
    match platform {
        Platform::MacOs => "Ctrl+Shift+Space".to_owned(),
        _ => "Ctrl+Alt+Space".to_owned(),
    }
}

/// The model used when the settings name none.
pub fn default_gemini_model() -> (r: String)
    ensures
        r@ == default_model_value(),
{
    default_model().to_owned()
}

/// The voice used when the settings name none.
pub fn default_tts_voice() -> (r: String)
    ensures
        r@ == default_voice_value(),
{
    default_voice().to_owned()
}

/// What saving a new shortcut does to the registered one.
pub enum ShortcutChange {
    /// The shortcut did not change: leave the registration alone.
    Keep,
    /// Drop every registration and register nothing (an empty shortcut).
    Clear,
    /// Drop every registration and register the new shortcut.
    Replace,
}

/// What saving `new` does when `current` is registered.
pub open spec fn shortcut_change_spec(current: Seq<char>, new: Seq<char>) -> ShortcutChange {
    if current == new {
        ShortcutChange::Keep
    } else if new.len() == 0 {
        ShortcutChange::Clear
    } else {
        ShortcutChange::Replace
    }
}

/// Decides how the registered shortcut changes when settings are saved.
pub fn shortcut_change(current: &str, new: &str) -> (r: ShortcutChange)
    ensures
        r == shortcut_change_spec(current@, new@),
{
    if str_eq(current, new) {
        ShortcutChange::Keep
    } else if new.is_empty() {
        ShortcutChange::Clear
    } else {
        ShortcutChange::Replace
    }
}

/// The credential store service under which the API key is kept.
pub fn credential_service() -> (r: &'static str)
    ensures
        r@ == "com.tetsu.english-input-assistant"@,
{
    "com.tetsu.english-input-assistant"
}

/// The credential store user under which the API key is kept.
pub fn credential_user() -> (r: &'static str)
    ensures
        r@ == "google-api-key"@,
{
    "google-api-key"
}

/// The message when the credential store cannot be opened.
pub fn credential_unavailable() -> (r: String)
    ensures
        r@ == "システムの資格情報ストアにアクセスできませんでした。アクセス許可を確認して再試行してください。"@,
{
    "システムの資格情報ストアにアクセスできませんでした。アクセス許可を確認して再試行してください。".to_owned()
}

/// What reading the API key from the credential store found.
pub enum KeyLookup {
    Found(String),
    NoEntry,
    Failed,
}

/// The stored key: a missing entry is an empty key, any other failure is an
/// error that asks the user to unlock or allow access.
pub fn key_from_lookup(lookup: KeyLookup) -> (r: Result<String, String>)
    ensures
        lookup matches KeyLookup::Found(k) ==> r == Ok::<String, String>(k),
        lookup is NoEntry ==> (r matches Ok(k) && k@.len() == 0),
        lookup is Failed ==> (r matches Err(m) && m@
            == "システムの資格情報ストアから API キーを読み取れませんでした。ロックを解除するかアクセスを許可してから再試行してください。"@),
{
    match lookup {
        KeyLookup::Found(key) => Ok(key),
        KeyLookup::NoEntry => Ok(String::new()),
        KeyLookup::Failed => Err(
            "システムの資格情報ストアから API キーを読み取れませんでした。ロックを解除するかアクセスを許可してから再試行してください。".to_owned(),
        ),
    }
}

/// How a new key is written: an empty key deletes the entry, any other is stored.
pub enum KeyWrite {
    Delete,
    Store,
}

/// Decides how `key` is written to the credential store.
pub fn plan_key_write(key: &str) -> (r: KeyWrite)
    ensures
        r is Delete <==> key@.len() == 0,
{
    if key.is_empty() {
        KeyWrite::Delete
    } else {
        KeyWrite::Store
    }
}

/// What deleting the key entry found.
pub enum KeyDeletion {
    Deleted,
    NoEntry,
    Failed,
}

/// Deleting succeeds also when there was no entry to delete.
pub fn key_deletion_result(deletion: KeyDeletion) -> (r: Result<(), String>)
    ensures
        r is Ok <==> !(deletion is Failed),
        r matches Err(m) ==> m@ == "システムの資格情報ストアから API キーを削除できませんでした。"@,
{
    match deletion {
        KeyDeletion::Failed => Err("システムの資格情報ストアから API キーを削除できませんでした。".to_owned()),
        _ => Ok(()),
    }
}

/// The result of storing the key.
pub fn key_store_result(stored: bool) -> (r: Result<(), String>)
    ensures
        r is Ok <==> stored,
        r matches Err(m) ==> m@ == "システムの資格情報ストアに API キーを保存できませんでした。アクセス許可を確認して再試行してください。"@,
{
    if stored {
        Ok(())
    } else {
        Err("システムの資格情報ストアに API キーを保存できませんでした。アクセス許可を確認して再試行してください。".to_owned())
    }
}

/// The registered shortcut is kept exactly when the saved shortcut is the
/// same text; any other non-empty shortcut replaces it, and an emptied one
/// clears it.
pub proof fn law_shortcut_is_replaced_whenever_it_changed(current: Seq<char>, new: Seq<char>)
    ensures
        shortcut_change_spec(current, new) is Keep <==> current == new,
        current != new && new.len() > 0 ==> shortcut_change_spec(current, new) is Replace,
        current != new && new.len() == 0 ==> shortcut_change_spec(current, new) is Clear,
{
}

} // verus!
