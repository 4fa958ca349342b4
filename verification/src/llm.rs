//! Gemini translation requests: models, prompts and the JSON in replies.

use vstd::prelude::*;
use vstd::utf8::*;
use vstd::string::StringSliceAdditionalSpecFns;
use crate::text::{lemma_boundary_after_ascii, lemma_boundary_at_non_continuation, lemma_str_bytes_valid, str_eq, starts_with, trim, trim_spec, trim_start, trim_start_spec};

verus! {

/// The instructions sent with every translation request: turn Japanese into
/// natural English or improve English, and answer with a JSON object whose
/// explanation is in Japanese and quotes words with 「」 rather than `"`.
pub const SYSTEM_PROMPT: &'static str = "英語ライティングアシスタント。入力を自然な英語に変換せよ。日本語入力→英訳、英語入力→より自然に改善。JSON出力: {\"translated\":\"自然な英文\",\"explanation\":\"必ず日本語で記述。入力が日本語の場合は推奨英文の文法解説、入力が英語の場合は入力英文からの改善点と推奨英文の文法解説\",\"source_is_english\":bool}。explanation内で語句を引用する際は必ず日本語の「」を使用し、半角ダブルクォート(\")で囲わないこと（JSONが壊れるため）。";

/// A translation: natural English, a Japanese explanation, and whether the
/// input was already English.
#[derive(Clone, Debug)]
pub struct TranslationResult {
    pub translated: String,
    pub explanation: String,
    pub source_is_english: bool,
}

/// A Gemini model the user may choose.
#[derive(Clone, Debug)]
pub struct GeminiModel {
    pub value: &'static str,
    pub label: &'static str,
    pub is_default: bool,
}

/// The identifiers of the models that may be used, in the order offered.
pub open spec fn allowed_model_values() -> Seq<Seq<char>> {
    seq!["gemini-2.5-flash-lite"@, "gemini-2.5-flash"@]
}

/// The model used when none is configured: the one flagged as default.
pub open spec fn default_model_value() -> Seq<char> {
    "gemini-2.5-flash"@
}

/// The models that may be used, in the order they are offered; exactly the
/// second is the default.
pub fn allowed_models() -> (r: Vec<GeminiModel>)
    ensures
        r@.len() == allowed_model_values().len(),
        forall|i: int| 0 <= i < r@.len() ==> (#[trigger] r@[i]).value@ == allowed_model_values()[i],
        r@[0].label@ == "Gemini 2.5 Flash-Lite"@,
        r@[1].label@ == "Gemini 2.5 Flash"@,
        forall|i: int| 0 <= i < r@.len() ==> ((#[trigger] r@[i]).is_default <==> i == 1),
{
    let mut v = Vec::new();
    v.push(GeminiModel { value: "gemini-2.5-flash-lite", label: "Gemini 2.5 Flash-Lite", is_default: false });
    v.push(GeminiModel { value: "gemini-2.5-flash", label: "Gemini 2.5 Flash", is_default: true });
    v
}

/// The identifier of the default model.
pub fn default_model() -> (r: &'static str)
    ensures
        r@ == default_model_value(),
        exists|i: int| 0 <= i < allowed_model_values().len() && r@ == allowed_model_values()[i],
{
    let models = allowed_models();
    let mut i: usize = 0;
    while i < models.len()
        invariant
            models@.len() == allowed_model_values().len(),
            forall|k: int| 0 <= k < models@.len() ==> (#[trigger] models@[k]).value@ == allowed_model_values()[k],
            forall|k: int| 0 <= k < models@.len() ==> ((#[trigger] models@[k]).is_default <==> k == 1),
            i <= 1,
        decreases models@.len() - i,
    {
        if models[i].is_default {
            return models[i].value;
        }
        i = i + 1;
    }
    "gemini-2.5-flash"
}

/// Whether `model` is one of the models that may be used.
pub fn is_allowed_model(model: &str) -> (r: bool)
    ensures
        r <==> allowed_model_values().contains(model@),
{
    let models = allowed_models();
    let mut i: usize = 0;
    while i < models.len()
        invariant
            models@.len() == allowed_model_values().len(),
            forall|k: int| 0 <= k < models@.len() ==> (#[trigger] models@[k]).value@ == allowed_model_values()[k],
            i <= models@.len(),
            forall|k: int| 0 <= k < i ==> allowed_model_values()[k] != model@,
        decreases models@.len() - i,
    {
        if str_eq(models[i].value, model) {
            return true;
        }
        i = i + 1;
    }
    false
}

/// A request names a model that may be used, or is refused.
pub fn check_model(model: &str) -> (r: Result<(), String>)
    ensures
        r is Ok <==> allowed_model_values().contains(model@),
        r matches Err(m) ==> m@ == "Invalid model: "@ + model@,
{
    if is_allowed_model(model) {
        Ok(())
    } else {
        let mut message = "Invalid model: ".to_owned();
        message.append(model);
        Err(message)
    }
}

/// The default model is one that may be used.
pub proof fn law_default_model_is_allowed()
    ensures
        allowed_model_values().contains(default_model_value()),
{
    assert(allowed_model_values()[1] == default_model_value());
}

/// Only Gemini 2.5 models take a thinking configuration.
pub open spec fn supports_thinking_spec(model: Seq<char>) -> bool {
    "gemini-2.5"@.is_prefix_of(model)
}

/// Whether the request for `model` may carry a thinking configuration.
pub fn supports_thinking_config(model: &str) -> (r: bool)
    ensures
        r == supports_thinking_spec(model@),
{
    starts_with(model, "gemini-2.5")
}

/// Every model whose id begins with "gemini-2.5", each allowed model among
/// them, takes the thinking configuration, and no model whose id begins
/// otherwise does.
pub proof fn law_thinking_config_for_gemini_2_5(suffix: Seq<char>, model: Seq<char>)
    ensures
        supports_thinking_spec("gemini-2.5"@ + suffix),
        forall|i: int| 0 <= i < allowed_model_values().len() ==> supports_thinking_spec(#[trigger] allowed_model_values()[i]),
        supports_thinking_spec(model) ==> model.len() >= 10 && model.take(10) == "gemini-2.5"@,
{
    reveal_strlit("gemini-2.5");
    reveal_strlit("gemini-2.5-flash-lite");
    reveal_strlit("gemini-2.5-flash");
    assert(("gemini-2.5"@ + suffix).take(10) =~= "gemini-2.5"@);
    assert("gemini-2.5-flash-lite"@.take(10) =~= "gemini-2.5"@);
    assert("gemini-2.5-flash"@.take(10) =~= "gemini-2.5"@);
    assert(allowed_model_values()[0] == "gemini-2.5-flash-lite"@);
    assert(allowed_model_values()[1] == "gemini-2.5-flash"@);
    if supports_thinking_spec(model) {
        assert(model.take(10) =~= "gemini-2.5"@);
    }
}

/// The streaming endpoint of `model`; the API key travels in a header, never in the URL.
pub fn gemini_stream_url(model: &str) -> (r: String)
    ensures
        r@ == "https://generativelanguage.googleapis.com/v1beta/models/"@ + model@
            + ":streamGenerateContent?alt=sse"@,
{
    let mut url = "https://generativelanguage.googleapis.com/v1beta/models/".to_owned();
    url.append(model);
    url.append(":streamGenerateContent?alt=sse");
    url
}

/// The user message: the input, followed by the additional instructions when there are any.
pub open spec fn user_message_spec(input: Seq<char>, additional_prompt: Seq<char>) -> Seq<char> {
    if additional_prompt.len() == 0 {
        input
    } else {
        input + "\n\n[Additional instructions: "@ + additional_prompt + "]"@
    }
}

/// Builds the user message of a translation request.
pub fn build_user_message(input: &str, additional_prompt: &str) -> (r: String)
    ensures
        r@ == user_message_spec(input@, additional_prompt@),
{
    let mut message = input.to_owned();
    if !additional_prompt.is_empty() {
        message.append("\n\n[Additional instructions: ");
        message.append(additional_prompt);
        message.append("]");
    }
    message
}

/// Scanner state before a byte: brace depth, inside a JSON string, after a backslash in a string.
pub type BraceState = (int, bool, bool);

/// How one byte moves the brace scanner: braces count only outside strings,
/// and a backslash inside a string escapes the next byte.
pub open spec fn brace_step(st: BraceState, b: u8) -> BraceState {
    let (depth, in_string, escape) = st;
    if in_string {
        if escape {
            (depth, true, false)
        } else if b == 0x5c {
            (depth, true, true)
        } else if b == 0x22 {
            (depth, false, false)
        } else {
            (depth, true, false)
        }
    } else if b == 0x22 {
        (depth, true, escape)
    } else if b == 0x7b {
        (depth + 1, false, escape)
    } else if b == 0x7d {
        (depth - 1, false, escape)
    } else {
        st
    }
}

/// Scanner state before byte `i` when scanning starts at `start`.
pub open spec fn brace_scan(b: Seq<u8>, start: int, i: int) -> BraceState
    decreases i - start,
{
    if i <= start {
        (0, false, false)
    } else {
        brace_step(brace_scan(b, start, i - 1), b[i - 1])
    }
}

/// Byte `i` is the `}` that closes the object opened at `start`.
pub open spec fn closes_object(b: Seq<u8>, start: int, i: int) -> bool {
    &&& 0 <= i < b.len()
    &&& !brace_scan(b, start, i).1
    &&& b[i] == 0x7d
    &&& brace_scan(b, start, i).0 == 1
}

/// The first index at or after `from` that holds byte `x`, or the length.
pub open spec fn first_index_of(b: Seq<u8>, x: u8, from: int) -> int
    decreases b.len() - from,
{
    if from >= b.len() {
        b.len() as int
    } else if b[from] == x {
        from
    } else {
        first_index_of(b, x, from + 1)
    }
}

/// The first index at or after `from` that closes the object opened at `start`, or the length.
pub open spec fn first_close(b: Seq<u8>, start: int, from: int) -> int
    decreases b.len() - from,
{
    if from >= b.len() {
        b.len() as int
    } else if closes_object(b, start, from) {
        from
    } else {
        first_close(b, start, from + 1)
    }
}

/// The byte range of the first balanced JSON object: from the first `{` to the
/// `}` that closes it, ignoring braces inside strings.
pub open spec fn first_json_object_span(b: Seq<u8>) -> Option<(int, int)> {
    let s = first_index_of(b, 0x7b, 0);
    if s >= b.len() {
        None
    } else {
        let e = first_close(b, s, s);
        if e >= b.len() {
            None
        } else {
            Some((s, e + 1))
        }
    }
}

proof fn lemma_first_index_bounds(b: Seq<u8>, x: u8, from: int)
    requires
        0 <= from,
    ensures
        from <= first_index_of(b, x, from) || from > b.len(),
        first_index_of(b, x, from) <= b.len(),
        first_index_of(b, x, from) < b.len() ==> b[first_index_of(b, x, from)] == x,
    decreases b.len() - from,
{
    if from < b.len() && b[from] != x {
        lemma_first_index_bounds(b, x, from + 1);
    }
}

proof fn lemma_first_close_bounds(b: Seq<u8>, start: int, from: int)
    requires
        0 <= from,
    ensures
        from <= first_close(b, start, from) || from > b.len(),
        first_close(b, start, from) <= b.len(),
        first_close(b, start, from) < b.len() ==> closes_object(b, start, first_close(b, start, from)),
    decreases b.len() - from,
{
    if from < b.len() && !closes_object(b, start, from) {
        lemma_first_close_bounds(b, start, from + 1);
    }
}

/// The first balanced `{...}` object in `body`, if there is one; used to
/// recover a JSON reply that is wrapped in other text.
pub fn extract_first_json_object(body: &str) -> (r: Option<&str>)
    ensures
        r is Some <==> first_json_object_span(body.spec_bytes()) is Some,
        r is Some ==> ({
            let (s, e) = first_json_object_span(body.spec_bytes())->0;
            r->0.spec_bytes() == body.spec_bytes().subrange(s, e)
        }),
{
    let bytes = body.as_bytes();
    let ghost b = body.spec_bytes();
    let n = bytes.len();
    proof {
        lemma_str_bytes_valid(body);
        lemma_first_index_bounds(b, 0x7b, 0);
    }
    let mut i: usize = 0;
    while i < n
        invariant
            bytes@ == b,
            n == b.len(),
            i <= n,
            first_index_of(b, 0x7b, 0) == first_index_of(b, 0x7b, i as int),
        ensures
            i <= n,
            first_index_of(b, 0x7b, 0) == first_index_of(b, 0x7b, i as int),
            i < n ==> b[i as int] == 0x7b,
        decreases n - i,
    {
        if bytes[i] == 0x7b {
            break;
        }
        i = i + 1;
    }
    if i >= n {
        return None;
    }
    let start = i;
    assert(first_index_of(b, 0x7b, 0) == start);
    proof {
        lemma_first_close_bounds(b, start as int, start as int);
    }
    let mut depth: usize = 0;
    let mut in_string = false;
    let mut escape = false;
    let mut j: usize = start;
    while j < n
        invariant
            bytes@ == b,
            n == b.len(),
            start < n,
            b == body.spec_bytes(),
            valid_utf8(b),
            b[start as int] == 0x7b,
            first_index_of(b, 0x7b, 0) == start,
            start <= j <= n,
            brace_scan(b, start as int, j as int) == (depth as int, in_string, escape),
            depth <= j - start,
            j > start ==> depth >= 1,
            first_close(b, start as int, start as int) == first_close(b, start as int, j as int),
        decreases n - j,
    {
        let byte = bytes[j];
        let ghost before = (depth as int, in_string, escape);
        assert(brace_scan(b, start as int, j + 1) == brace_step(before, byte));
        if in_string {
            if escape {
                escape = false;
            } else if byte == 0x5c {
                escape = true;
            } else if byte == 0x22 {
                in_string = false;
            }
        } else if byte == 0x22 {
            in_string = true;
        } else if byte == 0x7b {
            depth = depth + 1;
        } else if byte == 0x7d {
            if depth == 1 {
                assert(closes_object(b, start as int, j as int));
                let end = j;
                assert(first_close(b, start as int, end as int) == end);
                proof {
                    lemma_boundary_at_non_continuation(b, start as int);
                }
                let (_, rest) = body.split_at(start);
                let ghost rb = rest.spec_bytes();
                proof {
                    assert(rb =~= b.subrange(start as int, b.len() as int));
                    lemma_str_bytes_valid(rest);
                    assert(rb[end - start] == 0x7d);
                    lemma_boundary_at_non_continuation(rb, end - start);
                    lemma_boundary_after_ascii(rb, end - start);
                }
                let (obj, _) = rest.split_at(end - start + 1);
                proof {
                    assert(obj.spec_bytes() =~= b.subrange(start as int, end + 1));
                }
                return Some(obj);
            }
            depth = depth - 1;
        }
        j = j + 1;
    }
    None
}

/// One lexical piece of JSON text: a byte with no structural meaning, a
/// string (its content between the quotes), or a brace or bracket.
pub enum JsonToken {
    Other(u8),
    Text(Seq<u8>),
    Open,
    Close,
    OpenList,
    CloseList,
}

/// The content of a JSON string between its quotes: bytes other than `"`
/// and `\`, and escapes, where a backslash escapes exactly the one byte after
/// it (`\n`, `\"`, `\\`, `\u`, ...).
pub open spec fn is_json_string_content(s: Seq<u8>) -> bool
    decreases s.len(),
{
    if s.len() == 0 {
        true
    } else if s[0] == 0x5c {
        s.len() >= 2 && is_json_string_content(s.skip(2))
    } else {
        s[0] != 0x22 && is_json_string_content(s.skip(1))
    }
}

/// The bytes of a token.
pub open spec fn token_bytes(t: JsonToken) -> Seq<u8> {
    match t {
        JsonToken::Other(c) => seq![c],
        JsonToken::Text(s) => seq![0x22u8] + s + seq![0x22u8],
        JsonToken::Open => seq![0x7bu8],
        JsonToken::Close => seq![0x7du8],
        JsonToken::OpenList => seq![0x5bu8],
        JsonToken::CloseList => seq![0x5du8],
    }
}

/// The bytes of a sequence of tokens.
pub open spec fn tokens_bytes(ts: Seq<JsonToken>) -> Seq<u8>
    decreases ts.len(),
{
    if ts.len() == 0 {
        seq![]
    } else {
        tokens_bytes(ts.drop_last()) + token_bytes(ts.last())
    }
}

/// A token is what it claims to be: a plain byte is no quote, brace or
/// bracket, and a string holds valid string content.
pub open spec fn token_is_lexical(t: JsonToken) -> bool {
    match t {
        JsonToken::Other(c) => c != 0x22 && c != 0x7b && c != 0x7d && c != 0x5b && c != 0x5d,
        JsonToken::Text(s) => is_json_string_content(s),
        _ => true,
    }
}

/// Objects opened minus objects closed.
pub open spec fn object_nesting(ts: Seq<JsonToken>) -> int
    decreases ts.len(),
{
    if ts.len() == 0 {
        0
    } else {
        object_nesting(ts.drop_last()) + match ts.last() {
            JsonToken::Open => 1int,
            JsonToken::Close => -1int,
            _ => 0int,
        }
    }
}

/// Objects and lists opened minus objects and lists closed.
pub open spec fn nesting(ts: Seq<JsonToken>) -> int
    decreases ts.len(),
{
    if ts.len() == 0 {
        0
    } else {
        nesting(ts.drop_last()) + match ts.last() {
            JsonToken::Open => 1int,
            JsonToken::OpenList => 1int,
            JsonToken::Close => -1int,
            JsonToken::CloseList => -1int,
            _ => 0int,
        }
    }
}

/// The content of a JSON object: lexical tokens in which no object is closed
/// before it was opened and every object opened is closed again.
pub open spec fn is_object_content(ts: Seq<JsonToken>) -> bool {
    &&& forall|k: int| 0 <= k < ts.len() ==> token_is_lexical(#[trigger] ts[k])
    &&& forall|k: int| 0 <= k <= ts.len() ==> object_nesting(#[trigger] ts.take(k)) >= 0
    &&& object_nesting(ts) == 0
}

/// A run of complete members: lexical tokens that close as many objects
/// and lists as they open.
pub open spec fn is_complete_members(ts: Seq<JsonToken>) -> bool {
    &&& forall|k: int| 0 <= k < ts.len() ==> token_is_lexical(#[trigger] ts[k])
    &&& nesting(ts) == 0
}

proof fn lemma_brace_scan_string(b: Seq<u8>, start: int, i: int, s: Seq<u8>, d: int)
    requires
        0 <= start <= i,
        i + s.len() <= b.len(),
        b.subrange(i, i + s.len()) == s,
        is_json_string_content(s),
        brace_scan(b, start, i) == (d, true, false),
    ensures
        brace_scan(b, start, i + s.len()) == (d, true, false),
        forall|j: int| i <= j <= i + s.len() ==> (#[trigger] brace_scan(b, start, j)).1,
    decreases s.len(),
{
    if s.len() > 0 {
        assert(b[i] == b.subrange(i, i + s.len())[0]);
        if s[0] == 0x5c {
            assert(b[i + 1] == b.subrange(i, i + s.len())[1]);
            assert(brace_scan(b, start, i + 1) == (d, true, true));
            assert(brace_scan(b, start, i + 2) == (d, true, false));
            assert(b.subrange(i + 2, i + s.len()) =~= s.skip(2));
            lemma_brace_scan_string(b, start, i + 2, s.skip(2), d);
        } else {
            assert(brace_scan(b, start, i + 1) == (d, true, false));
            assert(b.subrange(i + 1, i + s.len()) =~= s.skip(1));
            lemma_brace_scan_string(b, start, i + 1, s.skip(1), d);
        }
    }
}

proof fn lemma_brace_scan_tokens(b: Seq<u8>, start: int, i: int, ts: Seq<JsonToken>)
    requires
        0 <= start <= i,
        i + tokens_bytes(ts).len() <= b.len(),
        b.subrange(i, i + tokens_bytes(ts).len()) == tokens_bytes(ts),
        forall|k: int| 0 <= k < ts.len() ==> token_is_lexical(#[trigger] ts[k]),
        forall|k: int| 0 <= k <= ts.len() ==> object_nesting(#[trigger] ts.take(k)) >= 0,
        brace_scan(b, start, i) == (1int, false, false),
    ensures
        brace_scan(b, start, i + tokens_bytes(ts).len()) == (1 + object_nesting(ts), false, false),
        forall|j: int| i <= j < i + tokens_bytes(ts).len() ==> !closes_object(b, start, j),
    decreases ts.len(),
{
    if ts.len() > 0 {
        let init = ts.drop_last();
        let t = ts.last();
        let m = tokens_bytes(init).len();
        let n = object_nesting(init);
        let i1 = i + m;
        assert(tokens_bytes(ts) == tokens_bytes(init) + token_bytes(t));
        assert(b.subrange(i, i1) =~= tokens_bytes(init));
        assert forall|k: int| 0 <= k <= init.len() implies object_nesting(#[trigger] init.take(k)) >= 0 by {
            assert(init.take(k) =~= ts.take(k));
        }
        assert forall|k: int| 0 <= k < init.len() implies token_is_lexical(#[trigger] init[k]) by {
            assert(init[k] == ts[k]);
        }
        lemma_brace_scan_tokens(b, start, i, init);
        assert(ts.take(ts.len() as int) =~= ts);
        assert(ts.take(init.len() as int) =~= init);
        assert(object_nesting(ts.take(init.len() as int)) >= 0);
        assert(object_nesting(ts.take(ts.len() as int)) >= 0);
        assert(token_is_lexical(ts[ts.len() - 1]));
        let tb = token_bytes(t);
        assert forall|k: int| 0 <= k < tb.len() implies b[i1 + k] == #[trigger] tb[k] by {
            assert(b.subrange(i, i + tokens_bytes(ts).len())[m + k] == tokens_bytes(ts)[m + k]);
        }
        match t {
            JsonToken::Text(s) => {
                assert(tb[0] == 0x22);
                assert(b[i1] == 0x22);
                assert(brace_scan(b, start, i1 + 1) == (1 + n, true, false));
                assert(b.subrange(i1 + 1, i1 + 1 + s.len()) =~= s) by {
                    assert forall|k: int| 0 <= k < s.len() implies b.subrange(i1 + 1, i1 + 1 + s.len())[k] == s[k] by {
                        assert(tb[k + 1] == s[k]);
                    }
                }
                lemma_brace_scan_string(b, start, i1 + 1, s, 1 + n);
                assert(b[i1 + 1 + s.len()] == tb[s.len() + 1int]);
                assert(brace_scan(b, start, i1 + 2 + s.len()) == (1 + n, false, false));
                assert forall|j: int| i <= j < i + tokens_bytes(ts).len() implies !closes_object(b, start, j) by {
                    if i1 + 1 <= j < i1 + 1 + s.len() {
                        assert(brace_scan(b, start, j).1);
                    } else if j == i1 + 1 + s.len() {
                        assert(b[j] == 0x22);
                    } else if j == i1 {
                        assert(b[j] == 0x22);
                    }
                }
            },
            _ => {
                assert(b[i1] == tb[0]);
                assert(brace_scan(b, start, i1 + 1) == brace_step(brace_scan(b, start, i1), b[i1]));
            },
        }
    }
}

proof fn lemma_first_index_at(b: Seq<u8>, x: u8, from: int, at: int)
    requires
        0 <= from <= at < b.len(),
        b[at] == x,
        forall|k: int| from <= k < at ==> b[k] != x,
    ensures
        first_index_of(b, x, from) == at,
    decreases at - from,
{
    if from < at {
        lemma_first_index_at(b, x, from + 1, at);
    }
}

proof fn lemma_first_close_at(b: Seq<u8>, start: int, from: int, at: int)
    requires
        0 <= from <= at < b.len(),
        closes_object(b, start, at),
        forall|k: int| from <= k < at ==> !closes_object(b, start, k),
    ensures
        first_close(b, start, from) == at,
    decreases at - from,
{
    if from < at {
        lemma_first_close_at(b, start, from + 1, at);
    }
}

/// A reply `p + o + q` whose text before the object holds no `{`, where `o`
/// is a JSON object text (strings read with their escapes, objects and lists
/// nested inside), gives exactly `o` as its first JSON object, whatever
/// follows it.
pub proof fn law_first_json_object_is_the_embedded_object(p: Seq<u8>, ts: Seq<JsonToken>, q: Seq<u8>)
    requires
        forall|i: int| 0 <= i < p.len() ==> p[i] != 0x7b,
        is_object_content(ts),
    ensures
        ({
            let o = seq![0x7bu8] + tokens_bytes(ts) + seq![0x7du8];
            first_json_object_span(p + o + q) == Some((p.len() as int, (p.len() + o.len()) as int))
        }),
{
    let tb = tokens_bytes(ts);
    let o = seq![0x7bu8] + tb + seq![0x7du8];
    let b = p + o + q;
    let s = p.len() as int;
    let e = s + 1 + tb.len();
    assert(b[s] == 0x7b);
    assert(b[e] == 0x7d);
    assert forall|k: int| 0 <= k < s implies b[k] != 0x7b by {
        assert(b[k] == p[k]);
    }
    lemma_first_index_at(b, 0x7b, 0, s);
    assert(brace_scan(b, s, s) == (0int, false, false));
    assert(brace_scan(b, s, s + 1) == (1int, false, false));
    assert(b.subrange(s + 1, e) =~= tb);
    assert(ts.take(ts.len() as int) =~= ts);
    lemma_brace_scan_tokens(b, s, s + 1, ts);
    assert(closes_object(b, s, e));
    assert(!closes_object(b, s, s));
    lemma_first_close_at(b, s, s, e);
}

/// How one byte moves the scanner that looks for complete top-level fields:
/// braces and brackets nest, but only outside strings.
pub open spec fn field_step(st: BraceState, b: u8) -> BraceState {
    let (depth, in_string, escape) = st;
    if in_string {
        brace_step(st, b)
    } else if b == 0x22 {
        (depth, true, escape)
    } else if b == 0x7b || b == 0x5b {
        (depth + 1, false, escape)
    } else if b == 0x7d || b == 0x5d {
        (depth - 1, false, escape)
    } else {
        st
    }
}

/// Field scanner state before byte `i`.
pub open spec fn field_scan(b: Seq<u8>, i: int) -> BraceState
    decreases i,
{
    if i <= 0 {
        (0, false, false)
    } else {
        field_step(field_scan(b, i - 1), b[i - 1])
    }
}

/// Byte `i` ends a complete top-level field: a `,` inside the outer object
/// or the `}` that closes it.
pub open spec fn is_field_cut(b: Seq<u8>, i: int) -> bool {
    let before = field_scan(b, i);
    let after = field_step(before, b[i]);
    &&& !before.1
    &&& ((b[i] == 0x2c && after.0 == 1) || (b[i] == 0x7d && after.0 == 0))
}

/// The field ends among the first `n` bytes, in order.
pub open spec fn field_cuts(b: Seq<u8>, n: int) -> Seq<int>
    decreases n,
{
    if n <= 0 {
        seq![]
    } else if is_field_cut(b, n - 1) {
        field_cuts(b, n - 1).push(n - 1)
    } else {
        field_cuts(b, n - 1)
    }
}

proof fn lemma_field_scan_string(b: Seq<u8>, i: int, s: Seq<u8>, d: int)
    requires
        0 <= i,
        i + s.len() <= b.len(),
        b.subrange(i, i + s.len()) == s,
        is_json_string_content(s),
        field_scan(b, i) == (d, true, false),
    ensures
        field_scan(b, i + s.len()) == (d, true, false),
        forall|j: int| i <= j <= i + s.len() ==> (#[trigger] field_scan(b, j)).1,
    decreases s.len(),
{
    if s.len() > 0 {
        assert(b[i] == b.subrange(i, i + s.len())[0]);
        if s[0] == 0x5c {
            assert(b[i + 1] == b.subrange(i, i + s.len())[1]);
            assert(field_scan(b, i + 1) == (d, true, true));
            assert(field_scan(b, i + 2) == (d, true, false));
            assert(b.subrange(i + 2, i + s.len()) =~= s.skip(2));
            lemma_field_scan_string(b, i + 2, s.skip(2), d);
        } else {
            assert(field_scan(b, i + 1) == (d, true, false));
            assert(b.subrange(i + 1, i + s.len()) =~= s.skip(1));
            lemma_field_scan_string(b, i + 1, s.skip(1), d);
        }
    }
}

proof fn lemma_field_scan_tokens(b: Seq<u8>, i: int, ts: Seq<JsonToken>)
    requires
        0 <= i,
        i + tokens_bytes(ts).len() <= b.len(),
        b.subrange(i, i + tokens_bytes(ts).len()) == tokens_bytes(ts),
        forall|k: int| 0 <= k < ts.len() ==> token_is_lexical(#[trigger] ts[k]),
        field_scan(b, i) == (1int, false, false),
    ensures
        field_scan(b, i + tokens_bytes(ts).len()) == (1 + nesting(ts), false, false),
    decreases ts.len(),
{
    if ts.len() > 0 {
        let init = ts.drop_last();
        let t = ts.last();
        let m = tokens_bytes(init).len();
        let n = nesting(init);
        let i1 = i + m;
        assert(tokens_bytes(ts) == tokens_bytes(init) + token_bytes(t));
        assert(b.subrange(i, i1) =~= tokens_bytes(init));
        assert forall|k: int| 0 <= k < init.len() implies token_is_lexical(#[trigger] init[k]) by {
            assert(init[k] == ts[k]);
        }
        lemma_field_scan_tokens(b, i, init);
        assert(token_is_lexical(ts[ts.len() - 1]));
        let tb = token_bytes(t);
        assert forall|k: int| 0 <= k < tb.len() implies b[i1 + k] == #[trigger] tb[k] by {
            assert(b.subrange(i, i + tokens_bytes(ts).len())[m + k] == tokens_bytes(ts)[m + k]);
        }
        match t {
            JsonToken::Text(s) => {
                assert(tb[0] == 0x22);
                assert(b[i1] == 0x22);
                assert(field_scan(b, i1 + 1) == (1 + n, true, false));
                assert(b.subrange(i1 + 1, i1 + 1 + s.len()) =~= s) by {
                    assert forall|k: int| 0 <= k < s.len() implies b.subrange(i1 + 1, i1 + 1 + s.len())[k] == s[k] by {
                        assert(tb[k + 1] == s[k]);
                    }
                }
                lemma_field_scan_string(b, i1 + 1, s, 1 + n);
                assert(b[i1 + 1 + s.len()] == tb[s.len() + 1int]);
                assert(field_scan(b, i1 + 2 + s.len()) == (1 + n, false, false));
            },
            _ => {
                assert(b[i1] == tb[0]);
                assert(field_scan(b, i1 + 1) == field_step(field_scan(b, i1), b[i1]));
            },
        }
    }
}

proof fn lemma_field_cuts_contains(b: Seq<u8>, c: int, n: int)
    requires
        0 <= c < n,
        is_field_cut(b, c),
    ensures
        exists|k: int| 0 <= k < field_cuts(b, n).len() && #[trigger] field_cuts(b, n)[k] == c,
    decreases n,
{
    if n == c + 1 {
        let cuts = field_cuts(b, n);
        assert(cuts[cuts.len() - 1] == c);
    } else {
        lemma_field_cuts_contains(b, c, n - 1);
        let prev = field_cuts(b, n - 1);
        let k = choose|k: int| 0 <= k < prev.len() && #[trigger] prev[k] == c;
        assert(field_cuts(b, n)[k] == c);
    }
}

/// A streamed reply (after its leading white space) that begins `{`, then
/// complete members (strings read with their escapes, objects and lists
/// nested inside), then a top-level `,` or the closing `}`, yields the
/// candidate cut right there, closed with `}`, whatever was streamed after.
pub proof fn law_prefix_candidates_cut_after_complete_fields(text: Seq<char>, ts: Seq<JsonToken>, end: u8, rest: Seq<u8>)
    requires
        trim_start_spec(text).len() > 0,
        trim_start_spec(text)[0] == '{',
        encode_utf8(trim_start_spec(text)) == seq![0x7bu8] + tokens_bytes(ts) + seq![end] + rest,
        end == 0x2c || end == 0x7d,
        is_complete_members(ts),
    ensures
        exists|k: int|
            0 <= k < prefix_candidates_spec(text).len() && #[trigger] prefix_candidates_spec(text)[k] == decode_utf8(
                seq![0x7bu8] + tokens_bytes(ts),
            ) + "}"@,
{
    let t = trim_start_spec(text);
    let b = encode_utf8(t);
    let tb = tokens_bytes(ts);
    let c: int = 1 + tb.len() as int;
    assert(b[0] == 0x7b);
    assert(b[c] == end);
    assert(field_scan(b, 0) == (0int, false, false));
    assert(field_scan(b, 1) == (1int, false, false));
    assert(b.subrange(1, c) =~= tb);
    lemma_field_scan_tokens(b, 1, ts);
    assert(is_field_cut(b, c));
    lemma_field_cuts_contains(b, c, b.len() as int);
    let cuts = field_cuts(b, b.len() as int);
    let k = choose|k: int| 0 <= k < cuts.len() && #[trigger] cuts[k] == c;
    assert(b.subrange(0, c) =~= seq![0x7bu8] + tb);
    let f = |x: int| decode_utf8(b.subrange(0, x)) + "}"@;
    assert(prefix_candidates_spec(text) == cuts.map_values(f));
    assert(prefix_candidates_spec(text)[k] == f(c));
}

proof fn lemma_field_cuts_are_cuts(b: Seq<u8>, n: int)
    ensures
        forall|k: int| 0 <= k < field_cuts(b, n).len() ==> is_field_cut(b, #[trigger] field_cuts(b, n)[k]),
    decreases n,
{
    if n > 0 {
        lemma_field_cuts_are_cuts(b, n - 1);
        let prev = field_cuts(b, n - 1);
        assert forall|k: int| 0 <= k < field_cuts(b, n).len() implies is_field_cut(b, #[trigger] field_cuts(b, n)[k]) by {
            if k < prev.len() {
                assert(field_cuts(b, n)[k] == prev[k]);
            }
        }
    }
}

/// A streamed reply (after its leading white space) that begins `{` and then
/// runs through lexical tokens is never cut inside a string: no candidate
/// ends at the quotes or the content of a complete string, whatever bytes
/// (`,` and `}` included) and escapes it holds.
pub proof fn law_prefix_candidates_never_cut_inside_strings(
    text: Seq<char>,
    ts: Seq<JsonToken>,
    rest: Seq<u8>,
    k: int,
)
    requires
        trim_start_spec(text).len() > 0,
        trim_start_spec(text)[0] == '{',
        encode_utf8(trim_start_spec(text)) == seq![0x7bu8] + tokens_bytes(ts) + rest,
        forall|i: int| 0 <= i < ts.len() ==> token_is_lexical(#[trigger] ts[i]),
        0 <= k < ts.len(),
        ts[k] is Text,
    ensures
        ({
            let b = encode_utf8(trim_start_spec(text));
            let from = 1 + tokens_bytes(ts.take(k)).len();
            let to = from + token_bytes(ts[k]).len();
            forall|c: int| #![trigger field_cuts(b, b.len() as int).contains(c)]
                field_cuts(b, b.len() as int).contains(c) ==> !(from <= c < to)
        }),
{
    let b = encode_utf8(trim_start_spec(text));
    let pre = ts.take(k);
    let from: int = 1 + tokens_bytes(pre).len() as int;
    let sb = ts[k]->Text_0;
    let tb = token_bytes(ts[k]);
    let to: int = from + tb.len() as int;
    // The tokens before the string and the string itself, as a prefix of the reply.
    let upto = ts.take(k + 1);
    assert(upto.drop_last() =~= pre);
    assert(upto.last() == ts[k]);
    assert(tokens_bytes(upto) == tokens_bytes(pre) + tb);
    lemma_tokens_bytes_prefix(ts, k + 1);
    assert(b.subrange(1, from) =~= tokens_bytes(pre)) by {
        assert forall|i: int| 0 <= i < tokens_bytes(pre).len() implies b.subrange(1, from)[i] == tokens_bytes(pre)[i] by {
            assert(b[1 + i] == tokens_bytes(ts)[i]);
            assert(tokens_bytes(ts)[i] == tokens_bytes(upto)[i]);
        }
    }
    assert forall|i: int| 0 <= i < pre.len() implies token_is_lexical(#[trigger] pre[i]) by {
        assert(pre[i] == ts[i]);
    }
    assert(field_scan(b, 0) == (0int, false, false));
    assert(field_scan(b, 1) == (1int, false, false));
    lemma_field_scan_tokens(b, 1, pre);
    let d = 1 + nesting(pre);
    assert forall|i: int| 0 <= i < tb.len() implies b[from + i] == #[trigger] tb[i] by {
        assert(b[1 + tokens_bytes(pre).len() + i] == tokens_bytes(ts)[tokens_bytes(pre).len() + i]);
        assert(tokens_bytes(ts)[tokens_bytes(pre).len() + i] == tokens_bytes(upto)[tokens_bytes(pre).len() + i]);
    }
    assert(tb[0] == 0x22);
    assert(b[from] == 0x22);
    assert(field_scan(b, from + 1) == (d, true, false));
    assert(b.subrange(from + 1, from + 1 + sb.len()) =~= sb) by {
        assert forall|i: int| 0 <= i < sb.len() implies b.subrange(from + 1, from + 1 + sb.len())[i] == sb[i] by {
            assert(tb[i + 1] == sb[i]);
        }
    }
    assert(token_is_lexical(ts[k]));
    lemma_field_scan_string(b, from + 1, sb, d);
    lemma_field_cuts_are_cuts(b, b.len() as int);
    let cuts = field_cuts(b, b.len() as int);
    assert forall|c: int| #![trigger cuts.contains(c)] cuts.contains(c) implies !(from <= c < to) by {
        let i = choose|i: int| 0 <= i < cuts.len() && cuts[i] == c;
        assert(is_field_cut(b, cuts[i]));
        if from <= c < to {
            if c == from {
                assert(b[c] == 0x22);
            } else {
                assert(field_scan(b, c).1);
            }
        }
    }
}

/// The bytes of the first `n` tokens begin the bytes of all of them.
proof fn lemma_tokens_bytes_prefix(ts: Seq<JsonToken>, n: int)
    requires
        0 <= n <= ts.len(),
    ensures
        tokens_bytes(ts.take(n)).len() <= tokens_bytes(ts).len(),
        forall|i: int| 0 <= i < tokens_bytes(ts.take(n)).len() ==> #[trigger] tokens_bytes(ts.take(n))[i] == tokens_bytes(ts)[i],
    decreases ts.len() - n,
{
    if n < ts.len() {
        lemma_tokens_bytes_prefix(ts, n + 1);
        let longer = ts.take(n + 1);
        assert(longer.drop_last() =~= ts.take(n));
        assert(tokens_bytes(longer) == tokens_bytes(ts.take(n)) + token_bytes(longer.last()));
        assert forall|i: int| 0 <= i < tokens_bytes(ts.take(n)).len() implies #[trigger] tokens_bytes(ts.take(n))[i] == tokens_bytes(ts)[i] by {
            assert(tokens_bytes(longer)[i] == tokens_bytes(ts.take(n))[i]);
        }
    } else {
        assert(ts.take(n) =~= ts);
    }
}

/// The JSON texts that a partial reply may already hold completely: the
/// reply, without leading white space, cut after each complete top-level
/// field and closed with `}`. None unless the reply starts with `{`.
pub open spec fn prefix_candidates_spec(text: Seq<char>) -> Seq<Seq<char>> {
    let t = trim_start_spec(text);
    if t.len() == 0 || t[0] != '{' {
        seq![]
    } else {
        let b = encode_utf8(t);
        field_cuts(b, b.len() as int).map_values(|c: int| decode_utf8(b.subrange(0, c)) + "}"@)
    }
}

proof fn lemma_field_cuts_bound(b: Seq<u8>, n: int)
    ensures
        forall|k: int| 0 <= k < field_cuts(b, n).len() ==> 0 <= #[trigger] field_cuts(b, n)[k] < n,
    decreases n,
{
    if n > 0 {
        lemma_field_cuts_bound(b, n - 1);
        let prev = field_cuts(b, n - 1);
        assert forall|k: int| 0 <= k < field_cuts(b, n).len() implies 0 <= #[trigger] field_cuts(
            b,
            n,
        )[k] < n by {
            if k < prev.len() {
                assert(field_cuts(b, n)[k] == prev[k]);
            }
        }
    }
}

/// The candidate texts, in order, that a streamed reply may already hold as
/// complete JSON: each is the reply cut after a complete top-level field and
/// closed. The first one that parses with a non-blank translation is shown early.
pub fn translation_prefix_candidates(text: &str) -> (r: Vec<String>)
    ensures
        r@.len() == prefix_candidates_spec(text@).len(),
        forall|k: int| 0 <= k < r@.len() ==> (#[trigger] r@[k])@ == prefix_candidates_spec(text@)[k],
{
    let t = trim_start(text);
    let mut out: Vec<String> = Vec::new();
    if t.is_empty() {
        return out;
    }
    if t.get_char(0) != '{' {
        return out;
    }
    let bytes = t.as_bytes();
    let ghost b = t.spec_bytes();
    let n = bytes.len();
    proof {
        lemma_str_bytes_valid(t);
    }
    let mut opens: usize = 0;
    let mut closes: usize = 0;
    let mut in_string = false;
    let mut escape = false;
    let mut i: usize = 0;
    while i < n
        invariant
            bytes@ == b,
            b == t.spec_bytes(),
            b == encode_utf8(t@),
            valid_utf8(b),
            n == b.len(),
            i <= n,
            opens + closes <= i,
            field_scan(b, i as int) == (opens - closes, in_string, escape),
            out@.len() == field_cuts(b, i as int).len(),
            forall|k: int| 0 <= k < out@.len() ==> (#[trigger] out@[k])@ == decode_utf8(
                b.subrange(0, field_cuts(b, i as int)[k]),
            ) + "}"@,
        decreases n - i,
    {
        let byte = bytes[i];
        let was_in_string = in_string;
        assert(field_scan(b, i + 1) == field_step(field_scan(b, i as int), byte));
        if in_string {
            if escape {
                escape = false;
            } else if byte == 0x5c {
                escape = true;
            } else if byte == 0x22 {
                in_string = false;
            }
        } else if byte == 0x22 {
            in_string = true;
        } else if byte == 0x7b || byte == 0x5b {
            opens = opens + 1;
        } else if byte == 0x7d || byte == 0x5d {
            closes = closes + 1;
        }
        let cut = !was_in_string && ((byte == 0x2c && opens == closes + 1) || (byte == 0x7d
            && opens == closes));
        assert(cut == is_field_cut(b, i as int));
        if cut {
            proof {
                lemma_boundary_at_non_continuation(b, i as int);
            }
            let (head, _) = t.split_at(i);
            proof {
                encode_utf8_decode_utf8(head@);
                assert(head.spec_bytes() =~= b.subrange(0, i as int));
            }
            let mut candidate = head.to_owned();
            candidate.append("}");
            out.push(candidate);
        }
        i = i + 1;
    }
    proof {
        let cs = field_cuts(b, n as int);
        lemma_field_cuts_bound(b, n as int);
        assert(prefix_candidates_spec(text@) =~= cs.map_values(
            |c: int| decode_utf8(b.subrange(0, c)) + "}"@,
        ));
    }
    out
}

/// A reply that could not be read as a translation is answered with a fixed
/// message: the reply itself, which may hold anything, is never repeated.
pub open spec fn unreadable_reply_message() -> Seq<char> {
    "Failed to parse LLM response"@
}

/// `parse`, called on a string holding `text`, may give `out`.
pub open spec fn parse_gives<F: Fn(String) -> Option<TranslationResult>>(
    parse: F,
    text: Seq<char>,
    out: Option<TranslationResult>,
) -> bool {
    exists|s: String| s@ == text && #[trigger] parse.ensures((s,), out)
}

/// The text of the first balanced JSON object in `body`, if there is one.
pub open spec fn first_json_object_text(body: &str) -> Option<Seq<char>> {
    match first_json_object_span(body.spec_bytes()) {
        Some((a, b)) => Some(decode_utf8(body.spec_bytes().subrange(a, b))),
        None => None,
    }
}

/// Reads the translation in a reply with `parse`: first the whole reply
/// without surrounding white space, then, if that fails, the first balanced
/// JSON object in it.
pub fn parse_response(body: &str, parse: impl Fn(String) -> Option<TranslationResult>) -> (r: Result<TranslationResult, String>)
    requires
        forall|s: String| #[trigger] parse.requires((s,)),
    ensures
        r matches Ok(t) ==> (parse_gives(parse, trim_spec(body@), Some(t)) || (first_json_object_text(body) matches Some(o)
            && parse_gives(parse, trim_spec(body@), None) && parse_gives(parse, o, Some(t)))),
        r matches Err(m) ==> {
            &&& m@ == unreadable_reply_message()
            &&& parse_gives(parse, trim_spec(body@), None)
            &&& first_json_object_text(body) matches Some(o) ==> parse_gives(parse, o, None)
        },
{
    let whole = trim(body).to_owned();
    let ghost whole_view = whole;
    let first = parse(whole);
    assert(parse.ensures((whole_view,), first));
    if let Some(t) = first {
        assert(parse_gives(parse, trim_spec(body@), Some(t)));
        return Ok(t);
    }
    assert(parse_gives(parse, trim_spec(body@), None));
    match extract_first_json_object(body) {
        Some(object) => {
            let embedded = object.to_owned();
            let ghost embedded_view = embedded;
            let second = parse(embedded);
            assert(parse.ensures((embedded_view,), second));
            proof {
                encode_utf8_decode_utf8(object@);
            }
            assert(first_json_object_text(body) == Some(embedded_view@));
            match second {
                Some(t) => {
                    assert(parse_gives(parse, embedded_view@, Some(t)));
                    Ok(t)
                },
                None => {
                    assert(parse_gives(parse, embedded_view@, None));
                    Err("Failed to parse LLM response".to_owned())
                },
            }
        },
        None => Err("Failed to parse LLM response".to_owned()),
    }
}

} // verus!
