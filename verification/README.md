# transcode

Keeps one decoded frame per thirty video packets of a video, re-encodes each
kept frame as HEVC and writes it to `<dir>/frame<N>.hevc`.

- `src/pipeline.rs`: the decisions of the decoding loop as a state machine
  (`Transcoder::step`), with proofs over whole runs: kept frames are numbered
  0, 1, 2, ... without gaps; the packet counter counts the drained video
  packets; a drain keeps all of its frames or none; other streams are skipped.
- `src/frame_file.rs`, `src/decimal.rs`: the file name of a kept frame, proved
  to differ for different frame numbers.
- `src/encoding.rs`: the RGB conversion and HEVC encoder settings, and the
  collection of the encoder's packets into one byte string.
- `app/main.rs`: the program, which does the media work through ffmpeg and the
  file output, and asks the library what to do at each step.
