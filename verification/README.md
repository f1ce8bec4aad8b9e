# dban

DBan is a Windows side panel (to-do list, media controls, quick launcher,
password vault) that docks at the top of the monitor under the cursor and can
be revealed from a hot zone along the top edge of the screen: after a dwell
there the panel peeks, raised so that only its bottom strip shows.

- `src/` is the verified library: the decisions of the panel, each with a
  contract proved by Verus.
  - `hot_corner`: hit testing of the cursor and the dwell / leave timer state
    machine that reveals and hides the panel.
  - `window`, `placement`: window modes, monitor lookup, remembered
    per-monitor placements and the integer docking and snapping geometry.
  - `media`, `sources`: player names and ranking, the source filter, the
    choice of the session to show, the merged and ordered source list, the
    track signature and the play-mode commands.
  - `launcher`: Windows path rules for launchable files, entry ids, the icon
    script and data URL, launch checks and outcomes.
  - `secrets`: credential-store access through `keyring` and the vault entry
    bookkeeping.
  - `settings`: trigger settings, the global shortcut plan, volume bounds.
  - `text`: the string and number formatting the other modules share.
- `app/` is the Tauri application around the library: windows, tray, Win32
  and SMTC calls, files and the floating-point pixel scaling.
- `tests/` runs the library on concrete values.
