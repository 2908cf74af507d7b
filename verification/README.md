# pty-expect

Drive interactive CLI programs through a real PTY and assert against either
the raw byte stream or a VT100-rendered view of what the user would see.

- `src/` is the verified library: the transcript of the child's output with
  the cursor that `expect` advances and the answers to the child's
  cursor-position requests (`transcript.rs`), compiled patterns and
  lossy text decoding (`pattern.rs`), the VT100 emulator and the record of
  what it was fed (`terminal.rs`), the read-only rendered screen
  (`screen.rs`), control-character and line encoding (`control.rs`), the
  exit-wait decisions (`exit.rs`) and the error type (`error.rs`).
- `app/` holds `PtySession`: the PTY, the child process, the reader thread
  and the clock, which hand plain values to the library and act on what it
  decides.
- `tests/` exercises the library on concrete output.
