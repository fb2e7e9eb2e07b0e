# app_locker

A Linux application locker: each application runs inside a `bwrap` sandbox
whose configuration and data directories are a `gocryptfs` vault, unlocked
for the session and locked again afterwards.

The decisions are made in a verified library (`src/`), proved with Verus:

- `config` — where vaults and mount points live; where helper programs are
  looked for and which candidate wins.
- `sandbox` — the complete `bwrap` command line (isolation flags, the vault
  bound onto `~/.config/<app>` and `~/.local/share/<app>`, session
  pass-through, Chromium's `--no-sandbox`). It also maps well-known
  applications to the configuration directory names they use themselves
  (`resolve_known_app_dir`); that mapping is not used for the command line.
- `vault` — `VaultGuard`, and step-by-step state machines for making sure a
  vault exists, initialising, mounting, unmounting and removing it; the caller performs each
  requested action and reports what happened.
- `shortcut` — launcher file names, contents (always with the `security-high`
  icon) and locations, the icon search order, the directory walk (with a
  proof that it finds exactly the reachable file), and the colours of the
  lock badge.
- `gui` — the window's state and what each button does to it, with a proof over any run of
  frames that a vault is removed only after its removal was asked for and confirmed; vault
  listing order.
- `cli` — removal confirmation, the vault listing lines, and the steps of a
  launch from a desktop launcher.
- `text`, `error` — string helpers with exact specifications, and the error type.

`app/` is the program around it: command-line parsing, the `eframe` window,
and every interaction with processes, the file system and the terminal.
