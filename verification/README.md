# stt_pipeline

A speech-to-text pipeline for podcast audio: the audio is cut into pieces,
converted to 16 kHz mono wav, transcribed with Coqui STT, and the sorted word
timings and a waveform are written as JSON and optionally uploaded to S3.

- `src/` is the verified library (Verus): file names and short names of
  audio sources, configuration completion, output paths, the commands and
  arguments handed to ffmpeg, stt, audiowaveform and yt-dlp, the time pieces
  an episode is cut into, which steps a run performs, the stable ordering of
  words by start time, and the directory names of the application state.
- `app/` is the program around it: argument parsing, reading the
  configuration file, running processes, downloads, uploads, parallelism and
  the floating-point handling of durations and word times.
- `tests/` exercise the library, among others against `std::path`.
