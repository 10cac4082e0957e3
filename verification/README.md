# handy_meeting

The decision logic of a meeting recorder, verified with Verus.

- `src/meeting.rs`: the recording state machine (idle, recording, paused, processing),
  the acceptance of start/stop/pause/resume/toggle requests with their refusal
  messages, and the fallback from system audio to the microphone.
- `src/transcript.rs`: the comparison form of transcripts, the overlap test between a
  system and a microphone transcript, the per-segment merge policies and the
  collection of segment transcripts.
- `src/finalize.rs`: what becomes of a stopped recording (which audio is kept, whether
  it is transcribed whole or in 4-second segments), the segment bounds, the file name.
- `src/zoom_detection.rs`: recognising a Zoom meeting from the foreground window, and
  the streak counting that starts and stops recordings automatically.
- `src/screen_capture.rs`, `src/commands.rs`: the outcome of the native capture calls
  and the permission status.
- `src/text.rs`: white space, ASCII lower-casing, trimming, substring search, word
  splitting and joining over `Seq<char>`.

`app/` holds what runs around the library: the native capture and foreground-window
probes, the wall clock (chrono), threads, sample buffers (floating point), WAV and JSON files, and the command
functions, written against a `MeetingHost` trait for the surrounding application.
