# procora_tui

Interaction state of the Procora terminal interface, verified with Verus: what every key,
mouse wheel step, elapsed time slice and log chunk does to the pages of a project, the
service overview, the package workbench, the configuration text editor and the form
dialogs, the task settings, health checks, profiles and project task defaults of the
structured form, together with the text, log and YAML handling they rely on.

Layout:

- `src/` — the verified library. Each page or widget keeps an abstract view (a ghost
  struct) and states every operation over it; laws that span operations are public proof
  functions named `lemma_*`. Calls into `ratatui` (display width) and `serde_json` (JSON
  strings, arrays and objects) are behind small trusted wrappers; the JSON text they write
  is stated, the display width and what `serde_json` reads are named.
- `tests/` — tests of the library on concrete values.
- `app/` — the terminal front end: event loops, drawing with `ratatui`, key and mouse
  conversion from `crossterm`, and file system access for the directory browser.
