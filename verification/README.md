# meetapp

The verified core of a desktop meeting assistant that detects online meetings,
records them, and produces transcripts, summaries and action items.

* `src/` — the library, checked with Verus: meeting detection from window
  titles and processes, the meeting store, the recorder's state machine
  (starting and stopping a capture, settling it after post-processing, one
  detection poll with auto-record and auto-stop), recorder bookkeeping (file
  names, talk time, post-processing plans), the recording library's naming and
  import rules, cloud transcription/summarization handling, the built-in
  summarizer, `.env` parsing, settings, tray and command decisions.
* `tests/` — tests of the library on concrete values.
* `app/` — a command-line host around the library: the `.env` loader, the
  on-disk sidecars, HTTP calls to AssemblyAI and Groq, WAV processing
  (RNNoise, DeepFilterNet, normalization) and process scanning. It opens no
  audio or screen devices, so the recordings it starts carry no media.
