# applejuicecli

A bootstrapper that installs and launches Roblox on Linux through Proton.

- `src/` is the library, verified with Verus: argument grouping and parameter lookup,
  the JSON configuration (read from and written back to its text through serde_json) and
  its section updates, version and manifest handling, the
  installation plan, the launch decisions (update check, fullscreen forcing, Proton paths),
  the BloxstrapRPC log reading, SteamOS detection and the fullscreen setting of Roblox's
  settings file, desktop shortcuts, the Steam library link and the indentation of
  terminal messages.
- `app/` is the program around it: the file system, network downloads, processes,
  threads, dialogs, notifications, Discord IPC and log watching.
- `tests/` exercise the library on concrete values.
