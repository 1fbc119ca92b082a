# minute_of_silence

The decision logic of a desktop app that holds a daily minute of silence at
09:00, verified with Verus.

`src/` (verified):

- `clock` — time of day and calendar date values, weekday, wrapping time arithmetic, and the
  NTP-corrected local date and time from a UTC clock reading.
- `preset` — audio presets and announcement voices; the lead time each needs before 09:00.
- `scheduler` — per-tick decisions: hourly clock resync, the reminder, the ceremony trigger
  (compensation window before 09:00, late-start grace window after it), with laws such as
  "at most one ceremony and one reminder per day" and "a skipped day is quiet".
- `ceremony` — the ceremony's state machine: which volume and mute changes it makes, what it
  remembers and restores when it ends, and the wait that makes the announcement end at 09:00.
- `apng` — conversion of decoded frames to RGBA, compositing with blend and dispose
  operations, and frame decoding through the `png` crate with base64 output; `png_reader`
  holds the `png` reader with a model of its progress, so that a decoding's result is stated
  as a function of the file's bytes.
- `mpris`, `platform`, `timezone`, `text` — media-player discovery in D-Bus listings, media
  pause fallbacks, mixer switch values, power events, CoreAudio codes, the audio device
  listing, decimal rendering, and the local UTC offset from the `/etc/localtime` link and the
  `chrono-tz` database.

`app/` performs the I/O around these decisions: Tauri commands, the scheduler loop, platform
APIs (ALSA, D-Bus, Core Audio, WinRT, CoreAudio), and the floating-point alpha blend. It uses
the desktop shell's state, settings, audio and NTP modules, which are not part of this crate.
