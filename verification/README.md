# hdrt

`hdrt` is a hardware information CLI and terminal UI: disks, volumes,
memory, processor and motherboard, printed as tables, Markdown or JSON, or
watched live.

## Layout

- `src/` is the library, written in Verus. Its functions carry contracts
  that the verifier proves, except four small trusted wrappers whose
  contracts are assumed: `text::push_char` (`String::push`),
  `render::tabled::draw_table` (the `tabled` crate), the byte decoder in
  `collector/windows/native_storage.rs` (`String::from_utf8_lossy`) and the
  JSON reader in `collector/windows/shell.rs` (`serde_json::from_slice`):
  - `hardware/` — the report model (disks, volumes, memory, processor,
    board, warnings, debug records with sorted, de-duplicated fields);
  - `collector/windows/` — how the Windows backends map WMI rows, registry
    values, storage descriptors and the PowerShell JSON into the report, and
    how the backends fall back on one another;
  - `render/` — table and Markdown renderers, warnings, the debug section,
    and the labels that decorate JSON;
  - `telemetry/` — reading `/proc/diskstats` and `mountinfo`, pairing mounts
    with counters, reading printed sizes back (through an exact model of the
    nearest double), and matching live volumes to the inventory;
  - `tui.rs` — key handling, tab and disk selection, the chart-mode cycle and
    list scrolling of the live view;
  - `i18n/`, `emoji.rs`, `size.rs`, `text.rs` — translations, decorations,
    byte sizes and the string functions everything is built on.
- `app/` is the program around it: command-line parsing, talking to the
  operating system (WMI, the registry, device calls, `/proc`, the system
  library), JSON serialization, the spinner and the ratatui interface.
- `tests/` runs the library on concrete inputs.
