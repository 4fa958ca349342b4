//! Google text-to-speech: the voices offered, the request details that
//! follow from a voice, the audio in replies, and the cache of played audio.

use vstd::prelude::*;
use crate::text::str_eq;
use base64::Engine;
use std::sync::Arc;
use std::sync::atomic::AtomicBool;

verus! {

/// A voice the user may choose.
#[derive(Clone, Debug)]
pub struct TtsVoice {
    pub value: &'static str,
    pub label: &'static str,
    pub is_default: bool,
}

/// The identifiers of the voices that may be used, in the order offered.
pub open spec fn allowed_voice_values() -> Seq<Seq<char>> {
    seq![
        "en-US-Standard-A"@,
        "en-US-Standard-B"@,
        "en-US-Standard-C"@,
        "en-US-Standard-D"@,
        "en-US-Standard-E"@,
        "en-US-Standard-F"@,
        "en-US-Standard-G"@,
        "en-US-Standard-H"@,
        "en-US-Standard-I"@,
        "en-US-Standard-J"@,
        "en-US-Chirp3-HD-Aoede"@,
        "en-US-Chirp3-HD-Kore"@,
        "en-US-Chirp3-HD-Leda"@,
        "en-US-Chirp3-HD-Zephyr"@,
        "en-US-Chirp3-HD-Charon"@,
        "en-US-Chirp3-HD-Fenrir"@,
        "en-US-Chirp3-HD-Orus"@,
        "en-US-Chirp3-HD-Puck"@,
    ]
}

/// The labels shown for the voices, in the same order.
pub open spec fn allowed_voice_labels() -> Seq<Seq<char>> {
    seq![
        "Standard-A（男性）"@,
        "Standard-B（男性）"@,
        "Standard-C（女性）"@,
        "Standard-D（男性）"@,
        "Standard-E（女性）"@,
        "Standard-F（女性）"@,
        "Standard-G（女性）"@,
        "Standard-H（女性）"@,
        "Standard-I（男性）"@,
        "Standard-J（男性）"@,
        "Chirp 3 HD Aoede（女性）"@,
        "Chirp 3 HD Kore（女性）"@,
        "Chirp 3 HD Leda（女性）"@,
        "Chirp 3 HD Zephyr（女性）"@,
        "Chirp 3 HD Charon（男性）"@,
        "Chirp 3 HD Fenrir（男性）"@,
        "Chirp 3 HD Orus（男性）"@,
        "Chirp 3 HD Puck（男性）"@,
    ]
}

/// The voice used when none is configured: the one flagged as default.
pub open spec fn default_voice_value() -> Seq<char> {
    "en-US-Standard-A"@
}

/// The voices that may be used, in the order offered; exactly the first is the default.
pub fn allowed_voices() -> (r: Vec<TtsVoice>)
    ensures
        r@.len() == allowed_voice_values().len(),
        forall|i: int| 0 <= i < r@.len() ==> (#[trigger] r@[i]).value@ == allowed_voice_values()[i],
        forall|i: int| 0 <= i < r@.len() ==> (#[trigger] r@[i]).label@ == allowed_voice_labels()[i],
        forall|i: int| 0 <= i < r@.len() ==> ((#[trigger] r@[i]).is_default <==> i == 0),
{
    let mut v: Vec<TtsVoice> = Vec::new();
    v.push(TtsVoice { value: "en-US-Standard-A", label: "Standard-A（男性）", is_default: true });
    v.push(TtsVoice { value: "en-US-Standard-B", label: "Standard-B（男性）", is_default: false });
    v.push(TtsVoice { value: "en-US-Standard-C", label: "Standard-C（女性）", is_default: false });
    v.push(TtsVoice { value: "en-US-Standard-D", label: "Standard-D（男性）", is_default: false });
    v.push(TtsVoice { value: "en-US-Standard-E", label: "Standard-E（女性）", is_default: false });
    v.push(TtsVoice { value: "en-US-Standard-F", label: "Standard-F（女性）", is_default: false });
    v.push(TtsVoice { value: "en-US-Standard-G", label: "Standard-G（女性）", is_default: false });
    v.push(TtsVoice { value: "en-US-Standard-H", label: "Standard-H（女性）", is_default: false });
    v.push(TtsVoice { value: "en-US-Standard-I", label: "Standard-I（男性）", is_default: false });
    v.push(TtsVoice { value: "en-US-Standard-J", label: "Standard-J（男性）", is_default: false });
    v.push(TtsVoice { value: "en-US-Chirp3-HD-Aoede", label: "Chirp 3 HD Aoede（女性）", is_default: false });
    v.push(TtsVoice { value: "en-US-Chirp3-HD-Kore", label: "Chirp 3 HD Kore（女性）", is_default: false });
    v.push(TtsVoice { value: "en-US-Chirp3-HD-Leda", label: "Chirp 3 HD Leda（女性）", is_default: false });
    v.push(TtsVoice { value: "en-US-Chirp3-HD-Zephyr", label: "Chirp 3 HD Zephyr（女性）", is_default: false });
    v.push(TtsVoice { value: "en-US-Chirp3-HD-Charon", label: "Chirp 3 HD Charon（男性）", is_default: false });
    v.push(TtsVoice { value: "en-US-Chirp3-HD-Fenrir", label: "Chirp 3 HD Fenrir（男性）", is_default: false });
    v.push(TtsVoice { value: "en-US-Chirp3-HD-Orus", label: "Chirp 3 HD Orus（男性）", is_default: false });
    v.push(TtsVoice { value: "en-US-Chirp3-HD-Puck", label: "Chirp 3 HD Puck（男性）", is_default: false });
    assert(v@.len() == allowed_voice_values().len());
    v
}

/// The identifier of the default voice.
pub fn default_voice() -> (r: &'static str)
    ensures
        r@ == default_voice_value(),
        allowed_voice_values().contains(r@),
{
    let voices = allowed_voices();
    let mut i: usize = 0;
    while i < voices.len()
        invariant
            voices@.len() == allowed_voice_values().len(),
            forall|k: int| 0 <= k < voices@.len() ==> (#[trigger] voices@[k]).value@ == allowed_voice_values()[k],
            forall|k: int| 0 <= k < voices@.len() ==> ((#[trigger] voices@[k]).is_default <==> k == 0),
            i == 0,
        decreases voices@.len() - i,
    {
        if voices[i].is_default {
            assert(allowed_voice_values()[0] == voices@[0].value@);
            return voices[i].value;
        }
        i = i + 1;
    }
    "en-US-Standard-A"
}

/// Whether `voice` is one of the voices that may be used.
pub fn is_allowed_voice(voice: &str) -> (r: bool)
    ensures
        r <==> allowed_voice_values().contains(voice@),
{
    let voices = allowed_voices();
    let mut i: usize = 0;
    while i < voices.len()
        invariant
            voices@.len() == allowed_voice_values().len(),
            forall|k: int| 0 <= k < voices@.len() ==> (#[trigger] voices@[k]).value@ == allowed_voice_values()[k],
            i <= voices@.len(),
            forall|k: int| 0 <= k < i ==> allowed_voice_values()[k] != voice@,
        decreases voices@.len() - i,
    {
        if str_eq(voices[i].value, voice) {
            return true;
        }
        i = i + 1;
    }
    false
}

/// The default voice is one that may be used.
pub proof fn law_default_voice_is_allowed()
    ensures
        allowed_voice_values().contains(default_voice_value()),
{
    assert(allowed_voice_values()[0] == default_voice_value());
}

/// The first index at or after `from` that holds `-`, or the length.
pub open spec fn dash_index(s: Seq<char>, from: int) -> int
    decreases s.len() - from,
{
    if from >= s.len() {
        s.len() as int
    } else if s[from] == '-' {
        from
    } else {
        dash_index(s, from + 1)
    }
}

/// The language of a voice: its first two `-`-separated parts ("en-US" of
/// "en-US-Standard-C"), or the whole name when it has fewer than two dashes.
pub open spec fn language_code_spec(voice: Seq<char>) -> Seq<char> {
    let d = dash_index(voice, 0);
    if d >= voice.len() {
        voice
    } else {
        voice.take(dash_index(voice, d + 1))
    }
}

proof fn lemma_dash_index(s: Seq<char>, from: int)
    requires
        0 <= from,
    ensures
        from <= dash_index(s, from) || from > s.len(),
        dash_index(s, from) <= s.len(),
    decreases s.len() - from,
{
    if from < s.len() && s[from] != '-' {
        lemma_dash_index(s, from + 1);
    }
}

fn find_dash(s: &str, from: usize) -> (r: usize)
    requires
        from <= s@.len(),
    ensures
        r == dash_index(s@, from as int),
{
    let n = s.unicode_len();
    let mut i = from;
    while i < n && s.get_char(i) != '-'
        invariant
            n == s@.len(),
            from <= i <= n,
            dash_index(s@, from as int) == dash_index(s@, i as int),
        decreases n - i,
    {
        i = i + 1;
    }
    i
}

/// The language code sent along with `voice`.
pub fn language_code(voice: &str) -> (r: String)
    ensures
        r@ == language_code_spec(voice@),
{
    let n = voice.unicode_len();
    let d = find_dash(voice, 0);
    proof {
        lemma_dash_index(voice@, 0);
    }
    if d >= n {
        return voice.to_owned();
    }
    let e = find_dash(voice, d + 1);
    proof {
        lemma_dash_index(voice@, d + 1);
    }
    voice.substring_char(0, e).to_owned()
}

/// The reply to a request for `voice`, unless the voice may not be used.
pub fn check_voice(voice: &str) -> (r: Result<(), String>)
    ensures
        r is Ok <==> allowed_voice_values().contains(voice@),
        r matches Err(m) ==> m@ == "無効な音声: "@ + voice@,
{
    if is_allowed_voice(voice) {
        Ok(())
    } else {
        let mut message = "無効な音声: ".to_owned();
        message.append(voice);
        Err(message)
    }
}

/// What standard base64 (`base64::engine::general_purpose::STANDARD`)
/// decodes the text `input` to, or the text (`Display`) of its `DecodeError`
/// when it is not valid base64.
pub uninterp spec fn base64_standard_decode(input: Seq<char>) -> Result<Seq<u8>, Seq<char>>;

/// A decode result as plain values.
pub open spec fn bytes_result_view(r: Result<Vec<u8>, String>) -> Result<Seq<u8>, Seq<char>> {
    match r {
        Ok(v) => Ok(v@),
        Err(e) => Err(e@),
    }
}

/// Calls `base64::engine::general_purpose::STANDARD.decode` on `input`,
/// turning the error into its text. Claimed: the outcome is a function of
/// `input` alone, named `base64_standard_decode`.
#[verifier::external_body]
fn decode_base64_standard(input: &str) -> (r: Result<Vec<u8>, String>)
    ensures
        bytes_result_view(r) == base64_standard_decode(input@),
{
    base64::engine::general_purpose::STANDARD.decode(input).map_err(|e| e.to_string())
}

/// What the audio field `audio_b64` yields: its decoded bytes, or the
/// decode error after a fixed prefix.
pub open spec fn decode_audio_spec(audio_b64: Seq<char>) -> Result<Seq<u8>, Seq<char>> {
    match base64_standard_decode(audio_b64) {
        Ok(b) => Ok(b),
        Err(e) => Err("Base64 デコードエラー: "@ + e),
    }
}

/// The audio in a base64 `audioContent` field.
pub fn decode_audio(audio_b64: &str) -> (r: Result<Vec<u8>, String>)
    ensures
        bytes_result_view(r) == decode_audio_spec(audio_b64@),
{
    match decode_base64_standard(audio_b64) {
        Ok(v) => Ok(v),
        Err(e) => {
            let mut message = "Base64 デコードエラー: ".to_owned();
            message.append(e.as_str());
            Err(message)
        },
    }
}

/// What `serde_json` reads from a synthesis reply body: `None` when it is not
/// JSON, otherwise the `audioContent` member when that is a string.
pub uninterp spec fn synthesis_audio_field(body: Seq<char>) -> Option<Option<Seq<char>>>;

/// Parses `body` with `serde_json::from_str::<serde_json::Value>` and picks
/// `audioContent` with `as_str`. Claimed: the outcome is a function of the
/// body alone, named `synthesis_audio_field`.
#[verifier::external_body]
fn read_audio_field(body: &str) -> (r: Option<Option<String>>)
    ensures
        audio_field_view(r) == synthesis_audio_field(body@),
{
    let v: serde_json::Value = serde_json::from_str(body).ok()?;
    Some(v["audioContent"].as_str().map(String::from))
}

/// The `audioContent` member as a plain value: `None` when the reply was not
/// JSON, `Some(None)` when the member is missing or not a string.
pub open spec fn audio_field_view(field: Option<Option<String>>) -> Option<Option<Seq<char>>> {
    match field {
        None => None,
        Some(None) => Some(None),
        Some(Some(a)) => Some(Some(a@)),
    }
}

/// What a synthesis reply yields, given what its `audioContent` member holds.
pub open spec fn audio_outcome_holds(field: Option<Option<Seq<char>>>, r: Result<Vec<u8>, String>) -> bool {
    match field {
        None => r matches Err(m) && m@ == "Google TTS のレスポンスを読み取れませんでした。"@,
        Some(None) => r matches Err(m) && m@ == "Google TTS のレスポンスに audioContent がありません"@,
        Some(Some(a)) => bytes_result_view(r) == decode_audio_spec(a),
    }
}

/// The audio of a synthesis reply, given its `audioContent` member as read
/// from the reply: decoded, or why the reply cannot be used.
pub fn audio_from_field(field: Option<Option<String>>) -> (r: Result<Vec<u8>, String>)
    ensures
        audio_outcome_holds(audio_field_view(field), r),
{
    match field {
        None => Err("Google TTS のレスポンスを読み取れませんでした。".to_owned()),
        Some(None) => Err("Google TTS のレスポンスに audioContent がありません".to_owned()),
        Some(Some(a)) => decode_audio(a.as_str()),
    }
}

/// The audio of a successful synthesis reply: its `audioContent`, decoded;
/// or why the reply cannot be used.
pub fn synthesis_audio(body: &str) -> (r: Result<Vec<u8>, String>)
    ensures
        audio_outcome_holds(synthesis_audio_field(body@), r),
{
    audio_from_field(read_audio_field(body))
}

/// Audio already fetched, keyed by what was spoken, so the same request is not made twice.
pub struct AudioCache {
    entries: Vec<(String, Vec<u8>)>,
    contents: Ghost<Map<Seq<char>, Seq<u8>>>,
}

impl View for AudioCache {
    type V = Map<Seq<char>, Seq<u8>>;

    closed spec fn view(&self) -> Map<Seq<char>, Seq<u8>> {
        self.contents@
    }
}

/// Every cached entry stands for its key in `contents`, keys are distinct,
/// and every key of `contents` has an entry.
spec fn entries_represent(entries: Seq<(String, Vec<u8>)>, contents: Map<Seq<char>, Seq<u8>>) -> bool {
    &&& forall|i: int, j: int|
        0 <= i < j < entries.len() ==> (#[trigger] entries[i]).0@ != (#[trigger] entries[j]).0@
    &&& forall|i: int|
        0 <= i < entries.len() ==> #[trigger] contents.contains_key(entries[i].0@)
            && contents[entries[i].0@] == entries[i].1@
    &&& forall|k: Seq<char>|
        #[trigger] contents.contains_key(k) ==> exists|i: int|
            0 <= i < entries.len() && (#[trigger] entries[i]).0@ == k
}

impl AudioCache {
    #[verifier::type_invariant]
    closed spec fn entries_match(&self) -> bool {
        entries_represent(self.entries@, self.contents@)
    }

    fn assemble(entries: Vec<(String, Vec<u8>)>, contents: Ghost<Map<Seq<char>, Seq<u8>>>) -> (r: Self)
        requires
            entries_represent(entries@, contents@),
        ensures
            r@ == contents@,
    {
        AudioCache { entries, contents }
    }

    pub fn new() -> (r: Self)
        ensures
            r@ == Map::<Seq<char>, Seq<u8>>::empty(),
    {
        AudioCache { entries: Vec::new(), contents: Ghost(Map::empty()) }
    }

    /// The audio cached for `text`, if any.
    pub fn get(&self, text: &str) -> (r: Option<Vec<u8>>)
        ensures
            r is Some <==> self@.contains_key(text@),
            r matches Some(a) ==> a@ == self@[text@],
    {
        proof {
            use_type_invariant(self);
        }
        match find_in(&self.entries, text) {
            Some(i) => {
                let audio = self.entries[i].1.clone();
                assert(audio@ =~= self.entries@[i as int].1@);
                Some(audio)
            },
            None => None,
        }
    }

    /// Caches `audio` for `text`, replacing what was cached for it.
    pub fn insert(&mut self, text: String, audio: Vec<u8>)
        ensures
            final(self)@ == old(self)@.insert(text@, audio@),
    {
        proof {
            use_type_invariant(&*self);
        }
        let ghost new_contents = self.contents@.insert(text@, audio@);
        let mut current = AudioCache::new();
        std::mem::swap(&mut current, self);
        proof {
            use_type_invariant(&current);
        }
        let ghost old_contents = current.contents@;
        assert(old_contents == old(self)@);
        let AudioCache { entries, contents: _ } = current;
        let mut entries = entries;
        let ghost old_entries = entries@;
        match find_in(&entries, text.as_str()) {
            Some(i) => {
                let ghost key = text@;
                entries.set(i, (text, audio));
                proof {
                    assert forall|a: int, b: int| 0 <= a < b < entries@.len() implies (#[trigger] entries@[a]).0@
                        != (#[trigger] entries@[b]).0@ by {
                        assert(old_entries[a].0@ != old_entries[b].0@);
                    }
                    assert forall|j: int| 0 <= j < entries@.len() implies #[trigger] new_contents.contains_key(
                        entries@[j].0@,
                    ) && new_contents[entries@[j].0@] == entries@[j].1@ by {
                        if j != i {
                            assert(old_entries[j].0@ != old_entries[i as int].0@);
                            assert(old_contents.contains_key(old_entries[j].0@));
                        }
                    }
                    assert forall|k: Seq<char>| #[trigger] new_contents.contains_key(k) implies exists|j: int|
                        0 <= j < entries@.len() && (#[trigger] entries@[j]).0@ == k by {
                        if k == key {
                            assert(entries@[i as int].0@ == k);
                        } else {
                            let j = choose|j: int| 0 <= j < old_entries.len() && (#[trigger] old_entries[j]).0@ == k;
                            assert(entries@[j].0@ == k);
                        }
                    }
                }
            },
            None => {
                entries.push((text, audio));
                proof {
                    assert forall|a: int, b: int| 0 <= a < b < entries@.len() implies (#[trigger] entries@[a]).0@
                        != (#[trigger] entries@[b]).0@ by {
                        if b < old_entries.len() {
                            assert(old_entries[a].0@ != old_entries[b].0@);
                        }
                    }
                    assert forall|j: int| 0 <= j < entries@.len() implies #[trigger] new_contents.contains_key(
                        entries@[j].0@,
                    ) && new_contents[entries@[j].0@] == entries@[j].1@ by {
                        if j < old_entries.len() {
                            assert(old_contents.contains_key(old_entries[j].0@));
                        }
                    }
                    assert forall|k: Seq<char>| #[trigger] new_contents.contains_key(k) implies exists|j: int|
                        0 <= j < entries@.len() && (#[trigger] entries@[j]).0@ == k by {
                        if k == entries@[entries@.len() - 1].0@ {
                        } else {
                            let j = choose|j: int| 0 <= j < old_entries.len() && (#[trigger] old_entries[j]).0@ == k;
                            assert(entries@[j].0@ == k);
                        }
                    }
                }
            },
        }
        assert(entries_represent(entries@, new_contents));
        *self = AudioCache::assemble(entries, Ghost(new_contents));
    }
}

/// What was cached last for a text is what the cache gives back for it,
/// and caching it leaves every other text as it was.
pub proof fn law_cache_returns_last_insert(
    cache: Map<Seq<char>, Seq<u8>>,
    text: Seq<char>,
    audio: Seq<u8>,
    other: Seq<char>,
)
    requires
        other != text,
    ensures
        cache.insert(text, audio).contains_key(text),
        cache.insert(text, audio)[text] == audio,
        cache.insert(text, audio).contains_key(other) == cache.contains_key(other),
        cache.contains_key(other) ==> cache.insert(text, audio)[other] == cache[other],
{
}

/// The cache contents after the inserts of `history`, in order, starting from `cache`.
pub open spec fn after_inserts(cache: Map<Seq<char>, Seq<u8>>, history: Seq<(Seq<char>, Seq<u8>)>) -> Map<
    Seq<char>,
    Seq<u8>,
>
    decreases history.len(),
{
    if history.len() == 0 {
        cache
    } else {
        after_inserts(cache, history.drop_last()).insert(history.last().0, history.last().1)
    }
}

/// Over any history of later inserts: audio cached for a text is given back
/// until a later insert uses that same text, and a fresh cache holds exactly
/// the texts that were inserted.
pub proof fn law_cache_over_any_history(
    cache: Map<Seq<char>, Seq<u8>>,
    text: Seq<char>,
    audio: Seq<u8>,
    history: Seq<(Seq<char>, Seq<u8>)>,
    key: Seq<char>,
)
    ensures
        (forall|i: int| 0 <= i < history.len() ==> (#[trigger] history[i]).0 != text) ==> {
            &&& after_inserts(cache.insert(text, audio), history).contains_key(text)
            &&& after_inserts(cache.insert(text, audio), history)[text] == audio
        },
        after_inserts(Map::empty(), history).contains_key(key) <==> exists|i: int|
            0 <= i < history.len() && (#[trigger] history[i]).0 == key,
    decreases history.len(),
{
    if history.len() > 0 {
        let d = history.drop_last();
        law_cache_over_any_history(cache, text, audio, d, key);
        assert forall|i: int| 0 <= i < d.len() implies #[trigger] d[i] == history[i] by {}
        if exists|i: int| 0 <= i < d.len() && (#[trigger] d[i]).0 == key {
            let i = choose|i: int| 0 <= i < d.len() && (#[trigger] d[i]).0 == key;
            assert(history[i].0 == key);
        }
        if exists|i: int| 0 <= i < history.len() && (#[trigger] history[i]).0 == key {
            let i = choose|i: int| 0 <= i < history.len() && (#[trigger] history[i]).0 == key;
            if i < d.len() {
                assert(d[i].0 == key);
            }
        }
    }
}

/// A stop signal shared with the thread that plays audio.
pub type StopSignal = Arc<AtomicBool>;

/// A new stop signal, not raised: playback runs until it ends or the signal
/// is raised. (vstd states nothing of the value an atomic holds, so neither
/// does this contract.)
pub fn new_stop_signal() -> StopSignal {
    Arc::new(AtomicBool::new(false))
}

/// The position of the entry for `text`, if there is one.
fn find_in(entries: &Vec<(String, Vec<u8>)>, text: &str) -> (r: Option<usize>)
    ensures
        r matches Some(i) ==> i < entries@.len() && entries@[i as int].0@ == text@,
        r is None ==> forall|i: int| 0 <= i < entries@.len() ==> entries@[i].0@ != text@,
{
    let mut i: usize = 0;
    while i < entries.len()
        invariant
            i <= entries@.len(),
            forall|k: int| 0 <= k < i ==> entries@[k].0@ != text@,
        decreases entries@.len() - i,
    {
        if str_eq(entries[i].0.as_str(), text) {
            return Some(i);
        }
        i = i + 1;
    }
    None
}

} // verus!
