# smoltalk

A push-to-talk dictation daemon for Wayland: a request starts a recording, another one stops it, the
speech is transcribed, and the text is typed or pasted where the user works.

- `src/` holds the decisions, proved with Verus: the lifecycle and its cancellation, the flow of each
  command, voice activity and pause chunking, stitching of transcripts, clean-up of raw output, the
  choice and the life of providers, text injection with the clipboard given back, notices and sounds.
- `app/` is the daemon around it: HTTP, audio devices, models, processes, files and settings. Where
  decisions alternate with such work, a flow in `src/` hands out the next action and `app/` reports
  back what came of it.
- `tests/` runs the library on concrete values.

Samples are generic in `src/`; whether a window of samples is loud enough is floating-point arithmetic
and is told to the library as one flag per window.
