# artale_timer

The logic of a boss-timer overlay, verified with Verus.

- `src/` is the library: boss definitions and their validation
  (`boss_config`), buffs and their edits (`buff_config`), player settings
  (`settings`), the timer engine that counts timers down, warns, expires,
  chains, repeats and clears them (`timer_engine`), the choice of global
  shortcuts and hotkey conflicts (`shortcuts`), the key listener's hotkey
  strings and state (`key_listener`), and what the overlay's commands decide
  (`session`). Time is counted in whole milliseconds; the few display values
  that are floating point are carried as their bits.
- `app/` is the desktop application around it: Tauri commands and state, the
  TOML files, sounds, the system tray, global shortcut registration and the
  macOS event tap.
- `tests/` runs the library on concrete values.
