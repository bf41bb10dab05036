# Trinity

The core of a desktop assistant for word-selection translation, clipboard
history and voice dictation, written in Verus. Every function of the
library carries a contract; Verus proves the library's own code against
these contracts, and takes on trust the contracts of the few small wrappers
(marked `external_body`) through which it calls `global-hotkey`, `config`,
`toml_edit` and `String::push`.

## Layout

- `src/` — the verified library.
  - `text` — whitespace trimming and collapsing, history previews.
  - `clipboard` — the clipboard history (newest first, duplicates promoted,
    bounded by a capacity), its paged picker and its monitor.
  - `persistence` — clipboard settings and the locations of the files under
    `~/.trinity`.
  - `cfg` — reading the translator settings through the `config` crate and
    writing shortcuts back into the TOML settings through `toml_edit`.
  - `hotkey` — shortcut configuration, validation, and a service that
    registers shortcuts through `global-hotkey`.
  - `mouse`, `translator` — detecting a completed text selection, what the
    translator popup shows, and the translator window's language swap and
    re-translation.
  - `dictation` — the dictation state machine and WAV encoding.
  - `daemon` — the decisions of the background daemon: control panel,
    background services, translator popup, clipboard history, dictation
    shortcut, exit.
  - `panel`, `tray` — control panel settings, and tray menu commands and
    events.
- `tests/` — tests of the library on concrete values.
- `app/` — the program around the library: command line, files on disk,
  the system clipboard, simulated key presses and the speech-to-text client.
