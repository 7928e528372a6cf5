# rgain

A ReplayGain scanner: it walks a directory, measures the loudness of every FLAC, MP3 and
WAV file (EBU R128), reports the gain of each to the ReplayGain 2.0 reference and, on
request, writes it to the files' tags.

The decisions are a library verified with Verus. What touches the file system, threads,
codecs and floating-point samples is a program that drives the library.

- `src/paths.rs` recognises audio files by name; `src/file_ops.rs` is the directory walk,
  and `src/walk_laws.rs` states what it does on a whole tree.
- `src/track.rs` picks the track to measure; `src/dsp.rs` decides which packets reach the
  loudness meter.
- `src/tally.rs` gathers the outcomes of parallel workers; `src/writes.rs` those of writing
  tags.
- `src/cache.rs` is the cache that lives between runs; `src/cache_laws.rs` states what
  holds of it across operations and runs; `src/hex_text.rs` writes its keys.
- `src/tags.rs` writes gain and peak to a tag.
- `src/session.rs` is the course of one run.
- `src/error.rs` holds the errors and their texts.
- `app/` is the program.
- `tests/` exercises the library on concrete values.

Each state machine states what is to be done next and takes the outcome; an event that
does not answer the pending request changes nothing.
