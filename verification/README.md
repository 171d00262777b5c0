# LDS — Linguistic Dispatch System

A local speech-to-text daemon for the Linux desktop. It records from the microphone, has a whisper
model transcribe the recording, cleans the text, saves it, puts it into the clipboard, types it on a
Wayland virtual keyboard, and tells its clients over a WebSocket on a Unix domain socket.

`src/` is the library, written and proved in Verus: the rules by which all of that happens.

| Module | What it is about |
| --- | --- |
| `text` | characters, words and numbers |
| `patterns` | the regular expressions of the text middleware, and the calls that run them |
| `text_middleware` | the clean-up of a transcript |
| `config`, `cli` | the configuration, its file and the command line |
| `ipc`, `ldsctl` | messages, requests and answers; the control program's part |
| `daemon` | the worker, and the delivery of a transcript |
| `audio_capture`, `wav`, `vad` | devices, samples and speech |
| `streaming`, `whisper_provider` | utterances, and the transcript out of its segments |
| `wayland_typist`, `smooth_typist` | keys, keymaps and the pace of typing |
| `transcript_log` | the names of the saved transcripts, and when they expire |

What is believed without proof stands in `patterns` (the calls into `regex` and `fancy-regex`), in
`transcript_log` (one call into `chrono`) and in `text` (`String::push`); a doc comment at each says
what is claimed.

`app/` is ordinary Rust around the library: the programs `lds` and `ldsctl`, with the microphone, the
recogniser, the socket, the files and the keyboard. `tests/` runs the library with the crates it
calls.
