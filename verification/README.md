# slova

The core of a desktop batch transcription application (video in, text,
SubRip and JSON out), written in Verus. Every function in `src/` carries a
contract that Verus proves; the program around it lives in `app/`.

## Layout

- `src/` — the verified library
  - `text`, `paths` — character-sequence helpers (decimal numbers, Unicode
    trimming, UTF-8 lengths, lines and words) and file paths as text
  - `types` — jobs, their state machine, settings, errors and cache keys
  - `chunking` — when audio is split, where (at silences or at fixed
    lengths) and how neighbouring chunks overlap
  - `stitching` — merging chunk transcripts: global times, overlap
    de-duplication, text similarity, sorting by start time
  - `export` — plain text, grouped and running SubRip, JSON, and where a
    write goes under each conflict policy
  - `ffmpeg` — the tools' command lines and the reading of their output
  - `groq` — how each reply of the speech-to-text and chat endpoints is
    answered, and the postprocessing request
  - `retry` — error classes, backoff with jitter, the retry loop's steps
  - `cache` — BLAKE3 content hashes and the settings fingerprint
  - `pipeline`, `stages` — the job pipeline as a state machine and what
    each stage records
  - `commands`, `keyring`, `progress`, `db`, `events`, `telemetry` — the
    decisions behind the user interface's commands, the API key in the
    credential store, progress batching, the job list query, log paths
- `tests/` — tests of the library, run against the compiled crate
- `app/` — the program: processes, HTTP, SQLite, files, concurrency and
  the serialisable copies of the library's types

## Laws

Besides each function's contract, `src/` proves properties that relate
several functions, among them: chunk boundaries partition the audio
into pieces no longer than the maximum, cut at silences or at the
maximum length; stitched segments come out sorted by start time and are exactly the ones
the chunks keep; settings read back from what was stored are the same
settings; retries never exceed their limits and their backoff doubles up
to a cap; pipeline stages run in order, each at most once; timecodes
below 100 hours have the fixed `HH:MM:SS,mmm` shape and give back their
time; the running SubRip export is a sequence of numbered blocks;
normalised text is alphanumeric words joined by single spaces; an
escaped job-state filter reads back as the state itself.
