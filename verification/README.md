# findybara

The core of Findybara, a macOS helper that shows a small panel under the
front Finder window with facts about the selected items and lets the user
ask a local language model (served by Ollama) about them.

`src/` is a Verus-verified library:

- `config` — badge label, colour and actions for a folder, a file (by its
  lowercased extension) or a multi-selection;
- `stats` — the panel states, the folder-scan tally and the size texts;
- `paths` — the documented file-name and extension rules for `/`-only
  paths, and the fact that they ignore ASCII letter case;
- `mac_finder` — reading the selected paths from the Finder script's output;
- `tracker` — the decisions of the thread that follows Finder;
- `ollama` — server addresses, the start-up wait, the model check and the
  cleaning of model replies;
- `commands` — the prompt sent to the model;
- `text`, `decimal` — trimming, search and decimal rendering.

`app/` is the Tauri shell around it: windows, tray, shortcuts, the
AppleScript bridge, file-system walks and HTTP calls.
