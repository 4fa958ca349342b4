//! The Google API key header and the errors shown for failed requests,
//! which never carry the key, the URL or transport details.

use vstd::prelude::*;
use vstd::string::StringSliceAdditionalSpecFns;
use reqwest::header::HeaderValue;

verus! {

#[verifier::external_type_specification]
#[verifier::external_body]
pub struct ExHeaderValue(reqwest::header::HeaderValue);

#[verifier::external_type_specification]
#[verifier::external_body]
pub struct ExRequestError(reqwest::Error);

/// A byte that an HTTP header value may hold: visible ASCII, tab, or any
/// byte from 0x80 up; never another control character or DEL.
pub open spec fn is_header_value_byte(b: u8) -> bool {
    (b >= 32 && b != 127) || b == 9
}

/// Every byte of `s` may stand in a header value.
pub open spec fn is_header_value(s: Seq<u8>) -> bool {
    forall|i: int| 0 <= i < s.len() ==> is_header_value_byte(#[trigger] s[i])
}

/// The bytes a header value holds.
pub uninterp spec fn header_value_bytes(value: HeaderValue) -> Seq<u8>;

/// Whether a header value is marked sensitive (kept out of `Debug` output).
pub uninterp spec fn header_value_is_sensitive(value: HeaderValue) -> bool;

/// Calls `reqwest::header::HeaderValue::from_str`. Claimed, as its source
/// shows: it succeeds exactly when every byte of `s` is a header value byte
/// (`is_valid` in `http`), and the value then holds the bytes of `s`.
#[verifier::external_body]
fn header_value_from_str(s: &str) -> (r: Option<HeaderValue>)
    ensures
        r is Some <==> is_header_value(s.spec_bytes()),
        r matches Some(v) ==> header_value_bytes(v) == s.spec_bytes(),
{
    HeaderValue::from_str(s).ok()
}

/// Calls `HeaderValue::set_sensitive(true)`, which only sets the flag that
/// keeps the value out of `Debug` output; the bytes stay as they were.
#[verifier::external_body]
fn mark_sensitive(value: &mut HeaderValue)
    ensures
        header_value_is_sensitive(*final(value)),
        header_value_bytes(*final(value)) == header_value_bytes(*old(value)),
{
    value.set_sensitive(true)
}

/// The `x-goog-api-key` header for `api_key`, marked sensitive; an invalid
/// key is refused with a message that does not repeat it.
pub fn api_key_header(api_key: &str) -> (r: Result<HeaderValue, String>)
    ensures
        r is Ok <==> is_header_value(api_key.spec_bytes()),
        r matches Ok(v) ==> header_value_bytes(v) == api_key.spec_bytes() && header_value_is_sensitive(v),
        r matches Err(m) ==> m@ == "API キーの形式が無効です。設定でキーを確認してください。"@,
{
    match header_value_from_str(api_key) {
        Some(value) => {
            let mut value = value;
            mark_sensitive(&mut value);
            Ok(value)
        },
        None => Err("API キーの形式が無効です。設定でキーを確認してください。".to_owned()),
    }
}

/// What `reqwest::Error::is_timeout` answers for an error: whether a timeout
/// is among its sources. It depends on the error alone.
pub uninterp spec fn reqwest_error_is_timeout(error: reqwest::Error) -> bool;

/// What `reqwest::Error::is_connect` answers for an error: whether a failed
/// connection is among its sources. It depends on the error alone.
pub uninterp spec fn reqwest_error_is_connect(error: reqwest::Error) -> bool;

/// Calls `reqwest::Error::is_timeout`; its answer is named `reqwest_error_is_timeout`.
#[verifier::external_body]
fn error_is_timeout(error: &reqwest::Error) -> (r: bool)
    ensures
        r == reqwest_error_is_timeout(*error),
{
    error.is_timeout()
}

/// Calls `reqwest::Error::is_connect`; its answer is named `reqwest_error_is_connect`.
#[verifier::external_body]
fn error_is_connect(error: &reqwest::Error) -> (r: bool)
    ensures
        r == reqwest_error_is_connect(*error),
{
    error.is_connect()
}

/// The message for a failed request to `service`: only the service and the
/// kind of failure.
pub open spec fn request_error_spec(service: Seq<char>, timeout: bool, connect: bool) -> Seq<char> {
    service + " リクエストに失敗しました: "@ + (if timeout {
        "リクエストがタイムアウトしました"@
    } else if connect {
        "接続できませんでした"@
    } else {
        "リクエストを完了できませんでした"@
    })
}

/// The message for a failed request, given whether it timed out or could not connect.
pub fn request_error_message(service: &str, timeout: bool, connect: bool) -> (r: String)
    ensures
        r@ == request_error_spec(service@, timeout, connect),
{
    let mut message = service.to_owned();
    message.append(" リクエストに失敗しました: ");
    if timeout {
        message.append("リクエストがタイムアウトしました");
    } else if connect {
        message.append("接続できませんでした");
    } else {
        message.append("リクエストを完了できませんでした");
    }
    message
}

/// The message for a failed request; it never holds the URL, headers or
/// the transport error itself.
pub fn request_error(service: &str, error: reqwest::Error) -> (r: String)
    ensures
        r@ == request_error_spec(service@, reqwest_error_is_timeout(error), reqwest_error_is_connect(error)),
{
    let timeout = error_is_timeout(&error);
    let connect = error_is_connect(&error);
    request_error_message(service, timeout, connect)
}

} // verus!
