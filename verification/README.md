# maono

Control for the Maono PD100W wireless microphone receiver over its vendor
HID interface: mute, gain, noise reduction, the RGB light, a status line for
desktop bars, a terminal panel and a small window.

## Layout

- `src/` — the verified library (Verus):
  - `protocol` — the 64-byte HID frame: checksum, building, parsing, and the
    query loop's decision on each reply;
  - `device` — recognising the receiver from a hidraw node's uevent text;
  - `text`, `words` — number and word parsing for the command line;
  - `cli` — the command-line grammar, gain arithmetic, light mode names;
  - `report` — the status report, the status-bar JSON line and the one-line
    answers of each command;
  - `plugin` — where the status-bar plugin is installed;
  - `targets` — where the terminal panel's click targets sit;
  - `window` — what the desktop window mirrors and how announcements update it;
  - `panel` — the state machine behind the terminal and window panels: keys,
    mouse, device notifications, the writes each action makes;
  - `theme`, `widgets` — the integer parts of colour zones, the meter scale and
    the activity graph.
- `app/` — the program: hidraw I/O, argument handling, shell integration,
  terminal drawing (ratatui, crossterm) and the window (eframe). Run under
  the name `maono-gui` (a link to the same program), it opens the window.
- `tests/` — tests of the library.
