# poltertype

The decision logic of PolterType, a keyboard-layout switcher and
spelling helper, as a library verified with Verus.

`src/` holds what the program decides, each function with a contract:

- `hold`, `evdev_gate`, `key_gate`, `rescan` — holding the user's
  keystrokes back while a correction is typed: which devices a poll
  grabs, the watchdog deadline, the per-hold retry rule, and which
  device nodes a rescan opens or forgets.
- `suggestions`, `engine_loop`, `engine_types`, `emit_plan` — spelling
  offers (rows, generations, accepts, the replacement's key arithmetic),
  the run loop's per-event decisions, and the key plans the uinput
  emitter types.
- `anchor`, `popup`, `hyprland` — where the tooltip goes, what it shows,
  and what the Hyprland IPC replies say about the focused window.
- `settings`, `settings_ui`, `commands`, `layout`, `autostart` — the
  settings schema and clamps, the settings window's helpers, the smart
  commands form, layout identifiers and the LaunchAgent body.
- `text`, `clock` — string helpers over `Seq<char>` and the clock.

The public proof functions (`lemma_*`) state the properties the library
keeps across calls: the hold deadline is final, a busy device is tried
once per hold, a replugged node is judged afresh, pasted words are never
corrected, and so on.

`app/` is the Linux input side around it: opening the keyboards, the
device thread, the uinput emitter, Hyprland IPC and the files on disk.
`tests/` runs the library on concrete values.
