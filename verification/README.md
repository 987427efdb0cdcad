# shazam_lib

Identifies songs from local audio files with the Shazam API: a short sample is
drawn from the file, encoded, sent to the service, and the answer is shown.

`src/` holds everything that computes, verified with Verus:

- `window` — where in the file the sample lies, and how a position such as `33%`
  or `1:30` is read;
- `extract` — the state machine that drives decoder and resampler and collects
  the sample;
- `encode` — Base64;
- `request` — what is sent to the service;
- `response` — how the answer is shown;
- `error` — what can go wrong, and the message for it;
- `text` — numbers, times and joined text.

`app/` is the command line around it: it opens files, runs FFmpeg, talks to the
network and reads JSON. `tests/` runs the library on concrete values.

What the proofs rest on besides Verus and its library is one call: `encode` of
the `base64` crate's standard engine, whose contract stands in `encode`.
