# stt_cloud

Cloud speech-to-text over Deepgram, written in Rust and verified with Verus.

- `src/` is the verified library: which model and language a request names
  (`model`), the parameters and addresses that follow (`query`, `url`,
  `headers`), batch requests and their answers (`batch`, `frames`), the two
  kinds of streamed transcript (`live`, `flux`), and the state machine of a live
  session (`session`, `stream`). Functions named `law_...` state what holds of
  the library as a whole.
- `app/` carries out what the library decides: it owns the sockets, threads and
  channels, decodes Deepgram's JSON, and turns floating-point audio into
  samples.
- `tests/` runs the library on examples.
