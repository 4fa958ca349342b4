//! Server-sent events of a streamed Gemini reply: framing the `data:` lines,
//! reading each event, and deciding when the reply is complete.

use vstd::prelude::*;
use crate::llm::TranslationResult;
use crate::text::{is_blank, is_blank_spec, starts_with, str_eq, trim, trim_spec};

verus! {

/// `line` without its trailing `\r` and `\n` characters.
pub open spec fn trim_newlines(line: Seq<char>) -> Seq<char>
    decreases line.len(),
{
    if line.len() > 0 && (line.last() == '\r' || line.last() == '\n') {
        trim_newlines(line.drop_last())
    } else {
        line
    }
}

/// The value of a `data:` field: what follows the colon, less one leading space.
pub open spec fn data_field_value(rest: Seq<char>) -> Seq<char> {
    if rest.len() > 0 && rest[0] == ' ' {
        rest.skip(1)
    } else {
        rest
    }
}

/// How one line of the stream changes the data collected for the current
/// event, and the data of the event that the line ends, if it ends one: a
/// blank line ends the event, a `data:` line adds its value on a line of its
/// own, and any other line (a comment, an `event:` field) changes nothing.
pub open spec fn frame_line_spec(data: Seq<char>, line: Seq<char>) -> (Seq<char>, Option<Seq<char>>) {
    let t = trim_newlines(line);
    if t.len() == 0 {
        (Seq::empty(), Some(data))
    } else if "data:"@.is_prefix_of(t) {
        (
            (if data.len() > 0 {
                data + "\n"@
            } else {
                data
            }) + data_field_value(t.skip(5)),
            None,
        )
    } else {
        (data, None)
    }
}

/// Collects the `data:` lines of one server-sent event.
pub struct EventFramer {
    data: String,
}

impl View for EventFramer {
    type V = Seq<char>;

    closed spec fn view(&self) -> Seq<char> {
        self.data@
    }
}

proof fn lemma_trim_newlines(line: Seq<char>, k: int)
    requires
        0 <= k <= line.len(),
        forall|i: int| line.len() - k <= i < line.len() ==> (#[trigger] line[i] == '\r' || line[i] == '\n'),
        k == line.len() || !(line[line.len() - k - 1] == '\r' || line[line.len() - k - 1] == '\n'),
    ensures
        trim_newlines(line) == line.take(line.len() - k),
    decreases k,
{
    if k > 0 {
        let d = line.drop_last();
        assert forall|i: int| d.len() - (k - 1) <= i < d.len() implies (#[trigger] d[i] == '\r' || d[i] == '\n') by {
            assert(d[i] == line[i]);
        }
        if k < line.len() {
            assert(d[d.len() - (k - 1) - 1] == line[line.len() - k - 1]);
        }
        lemma_trim_newlines(d, k - 1);
        assert(d.take(d.len() - (k - 1)) =~= line.take(line.len() - k));
    } else {
        assert(line.take(line.len() as int) =~= line);
    }
}

impl EventFramer {
    pub fn new() -> (r: Self)
        ensures
            r@ == Seq::<char>::empty(),
    {
        EventFramer { data: String::new() }
    }

    /// Takes one line of the stream. A blank line ends the event and hands
    /// back its data; a `data:` line adds to it; any other line is ignored.
    pub fn feed_line(&mut self, line: &str) -> (r: Option<String>)
        ensures
            (final(self)@, opt_string_view(r)) == frame_line_spec(old(self)@, line@),
    {
        let n = line.unicode_len();
        let mut k: usize = 0;
        while k < n && (line.get_char(n - 1 - k) == '\r' || line.get_char(n - 1 - k) == '\n')
            invariant
                n == line@.len(),
                k <= n,
                forall|i: int| n - k <= i < n ==> (#[trigger] line@[i] == '\r' || line@[i] == '\n'),
            decreases n - k,
        {
            k = k + 1;
        }
        proof {
            lemma_trim_newlines(line@, k as int);
        }
        let t = line.substring_char(0, n - k);
        if t.is_empty() {
            let mut out = String::new();
            std::mem::swap(&mut out, &mut self.data);
            return Some(out);
        }
        if starts_with(t, "data:") {
            proof {
                reveal_strlit("data:");
            }
            let m = t.unicode_len();
            let rest = t.substring_char(5, m);
            let value = if rest.unicode_len() > 0 && rest.get_char(0) == ' ' {
                rest.substring_char(1, rest.unicode_len())
            } else {
                rest
            };
            if !self.data.as_str().is_empty() {
                self.data.append("\n");
            }
            self.data.append(value);
        }
        None
    }

    /// The end of the stream ends the last event too.
    pub fn finish(self) -> (r: String)
        ensures
            r@ == self@,
    {
        self.data
    }
}

/// One part of a streamed candidate, as the event holds it.
pub struct EventPart {
    pub thought: Option<bool>,
    pub text: Option<String>,
}

/// The fields of a stream event that decide what happens with it.
pub struct StreamEvent {
    /// The event has an `error` member.
    pub has_error: bool,
    /// `promptFeedback.blockReason`, when it is a string.
    pub block_reason: Option<String>,
    /// `candidates[0].finishReason`, when it is a string.
    pub finish_reason: Option<String>,
    /// `candidates[0].content.parts`, when it is an array.
    pub parts: Option<Vec<EventPart>>,
}

/// An event part as plain values.
pub struct EventPartView {
    pub thought: Option<bool>,
    pub text: Option<Seq<char>>,
}

/// A stream event as plain values.
pub struct StreamEventView {
    pub has_error: bool,
    pub block_reason: Option<Seq<char>>,
    pub finish_reason: Option<Seq<char>>,
    pub parts: Option<Seq<EventPartView>>,
}

pub open spec fn opt_string_view(s: Option<String>) -> Option<Seq<char>> {
    match s {
        Some(x) => Some(x@),
        None => None,
    }
}

pub open spec fn part_view(p: EventPart) -> EventPartView {
    EventPartView { thought: p.thought, text: opt_string_view(p.text) }
}

pub open spec fn event_view(e: StreamEvent) -> StreamEventView {
    StreamEventView {
        has_error: e.has_error,
        block_reason: opt_string_view(e.block_reason),
        finish_reason: opt_string_view(e.finish_reason),
        parts: match e.parts {
            Some(ps) => Some(ps@.map_values(|p: EventPart| part_view(p))),
            None => None,
        },
    }
}

pub open spec fn event_result_view(r: Result<StreamEvent, String>) -> Result<StreamEventView, Seq<char>> {
    match r {
        Ok(e) => Ok(event_view(e)),
        Err(m) => Err(m@),
    }
}

/// What `serde_json` reads from the text of one stream event: its fields as
/// plain values, or the text of the parse error.
pub uninterp spec fn gemini_stream_event(data: Seq<char>) -> Result<StreamEventView, Seq<char>>;

/// Parses `data` with `serde_json::from_str::<serde_json::Value>` and picks
/// the fields that the stream logic reads (`Value::get`, indexing,
/// `as_str`, `as_bool`, `as_array`). Claimed: the outcome is a function of
/// `data` alone, named `gemini_stream_event`; nothing more is stated of it.
#[verifier::external_body]
fn parse_stream_event(data: &str) -> (r: Result<StreamEvent, String>)
    ensures
        event_result_view(r) == gemini_stream_event(data@),
{
    let v: serde_json::Value = serde_json::from_str(data).map_err(|e| e.to_string())?;
    let c = &v["candidates"][0];
    let part = |p: &serde_json::Value| EventPart {
        thought: p["thought"].as_bool(),
        text: p["text"].as_str().map(String::from),
    };
    Ok(StreamEvent {
        has_error: v.get("error").is_some(),
        block_reason: v["promptFeedback"]["blockReason"].as_str().map(String::from),
        finish_reason: c["finishReason"].as_str().map(String::from),
        parts: c["content"]["parts"].as_array().map(|ps| ps.iter().map(part).collect()),
    })
}

/// The text a candidate adds to the reply: its parts that carry text and are not thoughts.
pub open spec fn visible_text(parts: Seq<EventPartView>) -> Seq<char>
    decreases parts.len(),
{
    if parts.len() == 0 {
        seq![]
    } else {
        let p = parts.last();
        visible_text(parts.drop_last()) + (if p.thought != Some(true) && p.text is Some {
            p.text->0
        } else {
            seq![]
        })
    }
}

/// A reply being streamed: the text so far, the translation already shown,
/// and whether Gemini reported that generation stopped normally.
pub struct StreamResponse {
    text: String,
    preview: Option<TranslationResult>,
    finished: bool,
}

/// A stream response as plain values.
pub struct StreamResponseView {
    pub text: Seq<char>,
    pub preview: Option<TranslationResult>,
    pub finished: bool,
}

impl View for StreamResponse {
    type V = StreamResponseView;

    closed spec fn view(&self) -> StreamResponseView {
        StreamResponseView { text: self.text@, preview: self.preview, finished: self.finished }
    }
}

/// What the stream handler answers to an event that could not be read.
pub open spec fn invalid_event_message(e: Seq<char>) -> Seq<char> {
    "無効な Gemini ストリームイベント: "@ + e
}

/// How pushing the event `data` changes the response, or the error it ends with.
/// An event that carries nothing: blank, or the `[DONE]` marker.
pub open spec fn is_empty_event(data: Seq<char>) -> bool {
    let d = trim_spec(data);
    d.len() == 0 || d == "[DONE]"@
}

/// How a stream event that was read changes the response, or the error it
/// ends with: an error member, a block reason or a finish reason other than
/// `STOP` end the stream with a fixed message; otherwise the visible text is
/// added, and any finish reason marks the reply finished.
pub open spec fn apply_event_spec(st: StreamResponseView, ev: StreamEventView) -> Result<StreamResponseView, Seq<char>> {
    if ev.has_error {
        Err("Gemini がストリームエラーを返しました。"@)
    } else if ev.block_reason is Some {
        Err("Gemini がリクエストをブロックしました。"@)
    } else if ev.finish_reason is Some && ev.finish_reason->0 != "STOP"@ {
        Err("Gemini の生成が完了前に停止しました。"@)
    } else {
        Ok(
            StreamResponseView {
                text: st.text + (match ev.parts {
                    Some(ps) => visible_text(ps),
                    None => seq![],
                }),
                preview: st.preview,
                finished: st.finished || ev.finish_reason is Some,
            },
        )
    }
}

pub open spec fn push_spec(st: StreamResponseView, data: Seq<char>) -> Result<StreamResponseView, Seq<char>> {
    if is_empty_event(data) {
        Ok(st)
    } else {
        match gemini_stream_event(data) {
            Err(e) => Err(invalid_event_message(e)),
            Ok(ev) => apply_event_spec(st, ev),
        }
    }
}

/// What ending the stream yields, given the state and the parse of the full reply text.
pub open spec fn finish_spec(st: StreamResponseView, parsed: Result<TranslationResult, String>) -> Result<TranslationResult, Seq<char>> {
    if !st.finished {
        Err("生成完了前に Gemini ストリームが終了しました"@)
    } else {
        match parsed {
            Err(e) => Err(e@),
            Ok(r) => if is_blank_spec(r.translated@) {
                Err("Gemini が空の翻訳を返しました"@)
            } else if st.preview matches Some(p) && (p.translated@ != r.translated@
                || p.source_is_english != r.source_is_english) {
                Err("表示後に Gemini が翻訳を変更しました"@)
            } else {
                Ok(r)
            },
        }
    }
}

pub open spec fn result_view(r: Result<TranslationResult, String>) -> Result<TranslationResult, Seq<char>> {
    match r {
        Ok(t) => Ok(t),
        Err(e) => Err(e@),
    }
}

impl StreamResponse {
    pub fn new() -> (r: Self)
        ensures
            r@.text == Seq::<char>::empty(),
            r@.preview is None,
            !r@.finished,
    {
        StreamResponse { text: String::new(), preview: None, finished: false }
    }

    /// The reply text received so far.
    pub fn text(&self) -> (r: &str)
        ensures
            r@ == self@.text,
    {
        self.text.as_str()
    }

    /// The translation already shown, if any.
    pub fn preview(&self) -> (r: Option<&TranslationResult>)
        ensures
            r is Some <==> self@.preview is Some,
            r is Some ==> self@.preview == Some(*r->0),
    {
        self.preview.as_ref()
    }

    /// Takes one event. On success it says whether the text may now hold a
    /// translation worth showing early (no translation has been shown yet
    /// and the event was not blank or `[DONE]`); on an error nothing changes.
    pub fn push(&mut self, data: &str) -> (r: Result<bool, String>)
        ensures
            match push_spec(old(self)@, data@) {
                Ok(st) => {
                    &&& final(self)@ == st
                    &&& r matches Ok(try_preview) && (try_preview <==> (st.preview is None
                        && !is_empty_event(data@)))
                },
                Err(m) => {
                    &&& final(self)@ == old(self)@
                    &&& r matches Err(e) && e@ == m
                },
            },
    {
        let d = trim(data);
        if d.is_empty() || str_eq(d, "[DONE]") {
            return Ok(false);
        }
        let event = match parse_stream_event(data) {
            Ok(ev) => ev,
            Err(e) => {
                let mut message = "無効な Gemini ストリームイベント: ".to_owned();
                message.append(e.as_str());
                return Err(message);
            },
        };
        match self.apply_event(event) {
            Ok(()) => Ok(self.preview.is_none()),
            Err(e) => Err(e),
        }
    }

    /// Takes one stream event that was read; on an error nothing changes.
    pub fn apply_event(&mut self, event: StreamEvent) -> (r: Result<(), String>)
        ensures
            match apply_event_spec(old(self)@, event_view(event)) {
                Ok(st) => final(self)@ == st && r is Ok,
                Err(m) => final(self)@ == old(self)@ && (r matches Err(e) && e@ == m),
            },
    {
        if event.has_error {
            return Err("Gemini がストリームエラーを返しました。".to_owned());
        }
        if event.block_reason.is_some() {
            return Err("Gemini がリクエストをブロックしました。".to_owned());
        }
        let mut stopped = false;
        match &event.finish_reason {
            Some(reason) => {
                if !str_eq(reason.as_str(), "STOP") {
                    return Err("Gemini の生成が完了前に停止しました。".to_owned());
                }
                stopped = true;
            },
            None => {},
        }
        if stopped {
            self.finished = true;
        }
        match &event.parts {
            Some(parts) => {
                let ghost start = self.text@;
                let ghost kept = self.preview;
                let ghost done = self.finished;
                let ghost pv = parts@.map_values(|p: EventPart| part_view(p));
                let mut i: usize = 0;
                while i < parts.len()
                    invariant
                        pv == parts@.map_values(|p: EventPart| part_view(p)),
                        i <= parts@.len(),
                        self.text@ == start + visible_text(pv.take(i as int)),
                        self.preview == kept,
                        self.finished == done,
                    decreases parts@.len() - i,
                {
                    let part = &parts[i];
                    assert(pv.take(i + 1).drop_last() =~= pv.take(i as int));
                    assert(pv[i as int] == part_view(*part));
                    let visible = match part.thought {
                        Some(t) => !t,
                        None => true,
                    };
                    if visible {
                        match &part.text {
                            Some(t) => {
                                self.text.append(t.as_str());
                            },
                            None => {},
                        }
                    }
                    assert(self.text@ =~= start + visible_text(pv.take(i + 1)));
                    i = i + 1;
                }
                assert(pv.take(parts@.len() as int) =~= pv);
            },
            None => {},
        }
        Ok(())
    }

    /// Records the translation shown early, unless one was shown already or
    /// its English text is blank; says whether it was recorded.
    pub fn offer_preview(&mut self, preview: TranslationResult) -> (r: bool)
        ensures
            r <==> (old(self)@.preview is None && !is_blank_spec(preview.translated@)),
            r ==> final(self)@ == (StreamResponseView { preview: Some(preview), ..old(self)@ }),
            !r ==> final(self)@ == old(self)@,
    {
        if self.preview.is_some() || is_blank(preview.translated.as_str()) {
            return false;
        }
        self.preview = Some(preview);
        true
    }

    /// Ends the stream, given the parse of the complete reply text: the
    /// translation, unless generation did not finish, the parse failed, the
    /// translation is blank, or it differs from the one already shown.
    pub fn finish(self, parsed: Result<TranslationResult, String>) -> (r: Result<TranslationResult, String>)
        ensures
            result_view(r) == finish_spec(self@, parsed),
    {
        if !self.finished {
            return Err("生成完了前に Gemini ストリームが終了しました".to_owned());
        }
        let result = match parsed {
            Ok(result) => result,
            Err(e) => return Err(e),
        };
        if is_blank(result.translated.as_str()) {
            return Err("Gemini が空の翻訳を返しました".to_owned());
        }
        match &self.preview {
            Some(p) => {
                if !str_eq(p.translated.as_str(), result.translated.as_str())
                    || p.source_is_english != result.source_is_english {
                    return Err("表示後に Gemini が翻訳を変更しました".to_owned());
                }
            },
            None => {},
        }
        Ok(result)
    }
}

/// Reads a streamed reply line by line: collects each event's data and
/// hands complete events to the response. Once the request stopped being
/// current, the reading is cancelled for good: no later line or event is
/// taken, no translation is shown, and the reply ends as cancelled.
pub struct StreamReader {
    framer: EventFramer,
    response: StreamResponse,
    cancelled: bool,
}

/// A stream reader as plain values: the data of the event being collected,
/// the response so far, and whether the reading was cancelled.
pub struct StreamReaderView {
    pub data: Seq<char>,
    pub response: StreamResponseView,
    pub cancelled: bool,
}

impl View for StreamReader {
    type V = StreamReaderView;

    closed spec fn view(&self) -> StreamReaderView {
        StreamReaderView { data: self.framer@, response: self.response@, cancelled: self.cancelled }
    }
}

/// The answer once a translation was cancelled.
pub open spec fn cancelled_message() -> Seq<char> {
    "翻訳をキャンセルしました"@
}

/// Handing the event `data` to the response: the response after it and
/// whether a translation may now be shown early, or the error it ends with.
pub open spec fn deliver_spec(st: StreamResponseView, data: Seq<char>) -> Result<(StreamResponseView, bool), Seq<char>> {
    match push_spec(st, data) {
        Ok(next) => Ok((next, next.preview is None && !is_empty_event(data))),
        Err(m) => Err(m),
    }
}

/// How one line of the stream changes the reader.
pub open spec fn read_line_spec(s: StreamReaderView, line: Seq<char>) -> Result<(StreamReaderView, bool), Seq<char>> {
    if s.cancelled {
        Err(cancelled_message())
    } else {
        let (data, event) = frame_line_spec(s.data, line);
        match event {
            None => Ok((StreamReaderView { data, ..s }, false)),
            Some(e) => match deliver_spec(s.response, e) {
                Ok((next, try_preview)) => Ok((StreamReaderView { data, response: next, ..s }, try_preview)),
                Err(m) => Err(m),
            },
        }
    }
}

/// How the end of the stream changes the reader: it ends the last event too.
pub open spec fn read_end_spec(s: StreamReaderView) -> Result<(StreamReaderView, bool), Seq<char>> {
    if s.cancelled {
        Err(cancelled_message())
    } else {
        match deliver_spec(s.response, s.data) {
            Ok((next, try_preview)) => Ok((StreamReaderView { data: Seq::empty(), response: next, ..s }, try_preview)),
            Err(m) => Err(m),
        }
    }
}

/// What ending the reply yields, given the parse of its complete text.
pub open spec fn reader_finish_spec(s: StreamReaderView, parsed: Result<TranslationResult, String>) -> Result<TranslationResult, Seq<char>> {
    if s.cancelled {
        Err(cancelled_message())
    } else {
        finish_spec(s.response, parsed)
    }
}

/// The first position at or after `from` that holds a translation worth
/// showing (one whose English text is not blank), or the length.
pub open spec fn first_preview_index(previews: Seq<Option<TranslationResult>>, from: int) -> int
    decreases previews.len() - from,
{
    if from >= previews.len() {
        previews.len() as int
    } else if previews[from] matches Some(p) && !is_blank_spec(p.translated@) {
        from
    } else {
        first_preview_index(previews, from + 1)
    }
}

proof fn lemma_first_preview_index(previews: Seq<Option<TranslationResult>>, from: int)
    requires
        0 <= from,
    ensures
        from <= first_preview_index(previews, from) || from > previews.len(),
        first_preview_index(previews, from) <= previews.len(),
        first_preview_index(previews, from) < previews.len() ==> (previews[first_preview_index(previews, from)] matches Some(p)
            && !is_blank_spec(p.translated@)),
    decreases previews.len() - from,
{
    if from < previews.len() && !(previews[from] matches Some(p) && !is_blank_spec(p.translated@)) {
        lemma_first_preview_index(previews, from + 1);
    }
}

/// The translation a reader shows early from the readings `previews` of its
/// candidates (in the order `translation_prefix_candidates` gives them):
/// the first one with English text, unless the reading was cancelled or a
/// translation was shown already.
pub open spec fn shown_preview(s: StreamReaderView, previews: Seq<Option<TranslationResult>>) -> Option<TranslationResult> {
    let k = first_preview_index(previews, 0);
    if s.cancelled || s.response.preview is Some || k >= previews.len() {
        None
    } else {
        previews[k]
    }
}

impl StreamReader {
    pub fn new() -> (r: Self)
        ensures
            r@.data == Seq::<char>::empty(),
            r@.response.text == Seq::<char>::empty(),
            r@.response.preview is None,
            !r@.response.finished,
            !r@.cancelled,
    {
        StreamReader { framer: EventFramer::new(), response: StreamResponse::new(), cancelled: false }
    }

    /// Checks, before and after each read, that the request is still
    /// current. Once it is not, the reading is cancelled for good.
    pub fn check_current(&mut self, still_current: bool) -> (r: Result<(), String>)
        ensures
            final(self)@ == (StreamReaderView { cancelled: old(self)@.cancelled || !still_current, ..old(self)@ }),
            r is Ok <==> !final(self)@.cancelled,
            r matches Err(m) ==> m@ == cancelled_message(),
    {
        if !still_current {
            self.cancelled = true;
        }
        if self.cancelled {
            Err("翻訳をキャンセルしました".to_owned())
        } else {
            Ok(())
        }
    }

    /// Takes one line of the stream. On success it says whether a
    /// translation may now be shown early; an error ends the stream.
    pub fn read_line(&mut self, line: &str) -> (r: Result<bool, String>)
        ensures
            match read_line_spec(old(self)@, line@) {
                Ok((s, try_preview)) => final(self)@ == s && r == Ok::<bool, String>(try_preview),
                Err(m) => {
                    &&& r matches Err(e) && e@ == m
                    &&& old(self)@.cancelled ==> final(self)@ == old(self)@
                    &&& !old(self)@.cancelled ==> final(self)@ == (StreamReaderView {
                        data: frame_line_spec(old(self)@.data, line@).0,
                        ..old(self)@
                    })
                },
            },
    {
        if self.cancelled {
            return Err("翻訳をキャンセルしました".to_owned());
        }
        match self.framer.feed_line(line) {
            None => Ok(false),
            Some(data) => self.response.push(data.as_str()),
        }
    }

    /// The stream ended: the data collected so far forms its last event.
    pub fn read_end(&mut self) -> (r: Result<bool, String>)
        ensures
            match read_end_spec(old(self)@) {
                Ok((s, try_preview)) => final(self)@ == s && r == Ok::<bool, String>(try_preview),
                Err(m) => {
                    &&& r matches Err(e) && e@ == m
                    &&& old(self)@.cancelled ==> final(self)@ == old(self)@
                    &&& !old(self)@.cancelled ==> final(self)@ == (StreamReaderView {
                        data: Seq::empty(),
                        ..old(self)@
                    })
                },
            },
    {
        if self.cancelled {
            return Err("翻訳をキャンセルしました".to_owned());
        }
        let mut framer = EventFramer::new();
        std::mem::swap(&mut framer, &mut self.framer);
        let data = framer.finish();
        self.response.push(data.as_str())
    }

    /// The reply text received so far.
    pub fn text(&self) -> (r: &str)
        ensures
            r@ == self@.response.text,
    {
        self.response.text()
    }

    /// Shows a translation early: given what reading each candidate of
    /// `translation_prefix_candidates(self.text())` gave, in order, the first
    /// one with English text is recorded and returned, to be shown. Nothing is
    /// shown once the reading was cancelled or a translation was shown.
    pub fn offer_first_preview(&mut self, previews: Vec<Option<TranslationResult>>) -> (r: Option<TranslationResult>)
        ensures
            match shown_preview(old(self)@, previews@) {
                None => r is None && final(self)@ == old(self)@,
                Some(p) => {
                    &&& r matches Some(q) && q.translated@ == p.translated@ && q.explanation@ == p.explanation@
                        && q.source_is_english == p.source_is_english
                    &&& final(self)@ == (StreamReaderView {
                        response: StreamResponseView { preview: Some(p), ..old(self)@.response },
                        ..old(self)@
                    })
                },
            },
    {
        if self.cancelled || self.response.preview().is_some() {
            return None;
        }
        let ghost all = previews@;
        let mut items = previews;
        proof {
            lemma_first_preview_index(all, 0);
        }
        let mut i: usize = 0;
        while i < items.len()
            invariant
                items@ == all,
                all == previews@,
                i <= all.len(),
                first_preview_index(all, 0) == first_preview_index(all, i as int),
                self@ == old(self)@,
                !old(self)@.cancelled,
                old(self)@.response.preview is None,
            decreases all.len() - i,
        {
            let usable = match &items[i] {
                Some(p) => !is_blank(p.translated.as_str()),
                None => false,
            };
            if usable {
                proof {
                    lemma_first_preview_index(all, i as int);
                }
                let chosen = items.remove(i);
                match chosen {
                    Some(p) => {
                        let shown = TranslationResult {
                            translated: p.translated.clone(),
                            explanation: p.explanation.clone(),
                            source_is_english: p.source_is_english,
                        };
                        let offered = self.response.offer_preview(p);
                        assert(offered);
                        assert(first_preview_index(all, i as int) == i);
                        return Some(shown);
                    },
                    None => {
                        return None;
                    },
                }
            }
            i = i + 1;
        }
        None
    }

    /// Ends the reply, given the parse of its complete text; see `StreamResponse::finish`.
    pub fn finish(self, parsed: Result<TranslationResult, String>) -> (r: Result<TranslationResult, String>)
        ensures
            result_view(r) == reader_finish_spec(self@, parsed),
    {
        if self.cancelled {
            return Err("翻訳をキャンセルしました".to_owned());
        }
        self.response.finish(parsed)
    }
}

/// Once the request stopped being current, the reading stays cancelled: no
/// later line or end of stream is taken, nothing is shown early, and the
/// reply ends as cancelled.
pub proof fn law_cancelled_reading_stays_cancelled(
    s: StreamReaderView,
    line: Seq<char>,
    still_current: bool,
    previews: Seq<Option<TranslationResult>>,
    parsed: Result<TranslationResult, String>,
)
    requires
        s.cancelled,
    ensures
        read_line_spec(s, line) == Err::<(StreamReaderView, bool), Seq<char>>(cancelled_message()),
        read_end_spec(s) == Err::<(StreamReaderView, bool), Seq<char>>(cancelled_message()),
        shown_preview(s, previews) is None,
        reader_finish_spec(s, parsed) == Err::<TranslationResult, Seq<char>>(cancelled_message()),
        (StreamReaderView { cancelled: s.cancelled || !still_current, ..s }).cancelled,
{
}

/// A stream event that could be read never puts what it carries into an
/// error: an error member, a block reason or an abnormal finish reason is
/// answered with a fixed message.
pub proof fn law_stream_errors_are_fixed_messages(st: StreamResponseView, data: Seq<char>)
    requires
        gemini_stream_event(data) is Ok,
    ensures
        push_spec(st, data) matches Err(m) ==> (m == "Gemini がストリームエラーを返しました。"@
            || m == "Gemini がリクエストをブロックしました。"@
            || m == "Gemini の生成が完了前に停止しました。"@),
{
}

/// Once a translation was shown early, the reply can only end with that same
/// translation: the English text the user may already be using is never
/// replaced.
pub proof fn law_shown_translation_is_final(st: StreamResponseView, parsed: Result<TranslationResult, String>)
    requires
        st.preview is Some,
    ensures
        finish_spec(st, parsed) matches Ok(r) ==> (r.translated@ == st.preview->0.translated@
            && r.source_is_english == st.preview->0.source_is_english),
{
}

} // verus!
