# daydream

Core logic of an idle video looper: it plays a loop of videos with mpv while
the computer is idle and stops when the user comes back, telling the user's
return apart from mpv's own file transitions by learning the machine's idle
noise, transition recovery times and transition low-idle durations.

## Layout

- `src/` — the library, written in Verus and verified: the presence
  detector (`noise`, `window`), idle-reporter output parsing (`idle`,
  `text`), the video loop and settings (`config`), mpv playlist planning and
  event handling (`player`), thumbnail lookup (`thumbnail`) and the idle
  monitor's decisions (`monitor`). The `*_laws` modules hold proofs of
  properties that span several calls.
- `tests/` — tests of the library on concrete values.
- `app/` — the Tauri desktop shell: commands, configuration file, running
  the idle reporters and mpv, the monitor thread and the tray.

Floating-point values (mpv speed and volume) are carried by the library as
IEEE-754 bit patterns; the shell converts them.
