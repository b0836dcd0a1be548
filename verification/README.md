# yog

Plans, runs and checks FFmpeg transcodes: picks the container, encoder options,
decoding backend and pixel formats for a source, turns them into FFmpeg and
FFprobe command lines, reads FFmpeg's progress and log output, checks that an
output keeps the source's streams, samples a source to predict the output size,
and scores encodes with VMAF.

- `src/` is the library, verified with Verus: every public function states in
  its contract what it returns, and `src/laws.rs` holds the properties that span
  several functions. Two calls stand behind trusted wrappers: SHA-256 from
  `sha2` in `src/fingerprint.rs`, and std's `String::push` in `src/text.rs`.
- `tests/` runs the library on concrete values.
- `app/` is the command-line program around it: argument parsing, the
  configuration file, running FFmpeg and FFprobe, decoding their JSON, the
  floating-point prediction arithmetic and the charts.

There is no graphical front end here. The run state machines in `src/`
(`transcode_run`, `predict_run`, `emulate_run`) and the form builders
(`choices`, `form`) are the decisions of a desktop workspace; nothing in `app/`
drives them, and the tests exercise them directly.
