# voice2prompt

Push-to-talk dictation for Linux: hold Right Ctrl, speak, release; the
speech is transcribed locally and pasted into the active application.

- `src/` is the verified library (Verus): the listener's key tracking and
  keyboard selection, the `START`/`STOP`/`PASTE` protocol, the recording
  buffer, transcript assembly, the clipboard fallback order, the model
  configuration, paths and download arithmetic, the supervision decisions of
  `v2p run` and the `v2p doctor` report.
- `app/` is the program around it: command line, devices, audio capture,
  speech recognition, clipboard tools, tray icon and sockets.
- `tests/` exercises the library on concrete values.
