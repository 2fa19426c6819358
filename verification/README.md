# Impossible Voice

A self-hosted speech-to-text and text-to-speech server whose rules are verified with Verus.

- `src/` is the library: audio and WAV, resampling, voice activity, recognition and synthesis
  policies, artifact verification and installation, configuration, request admission and shutdown,
  and the HTTP, WebSocket, MCP, and gRPC protocol rules. Every item carries a contract that Verus
  proves; calls into `sha2`, `base64`, `reqwest`'s URL type, and two functions of the standard
  library (`String::push` and `str::from_utf8`) stand behind small declarations whose doc comments
  say what is believed of them.
- `tests/` runs the library on concrete values.
- `app/` is the program around it: command line, files, sockets, the native speech runtime, and the
  single- and double-precision arithmetic on samples.

Samples are IEEE-754 single-precision bit patterns. Server timeouts are nanoseconds,
and audio durations milliseconds.
