# English Input Assistant

A desktop helper that cuts the selected text out of the window in front,
translates it into natural English with Gemini, and pastes the result (or the
original) back into that same window. It can also read the English aloud with
Google text-to-speech.

## Layout

- `src/` — the verified library (Verus). Every function is verified against its
  contract; `new_stop_signal` has none, as nothing can be stated of the value an
  atomic holds.
  - `selection` — the one cut selection, which belongs to exactly one request
    and one source window; the clear/cut/read order of a capture.
  - `session` — what the shortcut and the popup commands decide: the current
    request, when a selection may be pasted over, restored or retried, which
    captured texts are translated, when a failed translation is retried.
  - `llm`, `stream` — models, prompts, the JSON in replies, and the framing
    and checking of a streamed reply (errors never repeat what the server sent;
    a translation already shown is never replaced).
  - `tts` — voices, the audio in replies, and the audio cache.
  - `google_api` — the API key header and request error messages.
  - `updater` — who may run an update check and what each step leads to.
  - `config`, `desktop` — settings defaults, the credential store answers,
    popup placement, focus and clipboard checks.
  - `text` — trimming and comparing strings as `str` does.
- `tests/` — tests of the library, run with the real outside crates.
- `app/` — the Tauri application around the library: windows, the global
  shortcut, clipboard and keyboard, HTTP, audio and the credential store.
