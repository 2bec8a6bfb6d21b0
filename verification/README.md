# herdr_recent_navigator

The model and logic of a recent workspaces / tabs / panes / agents switcher
for [Herdr](https://herdr.dev/), verified with Verus.

- `src/models.rs`: agent states, category tabs and the `[navigator] tabs`
  list, All-tab search filters, display rows (sort keys and search text),
  key bindings and their parser, the keybinding map, and the state text that
  remembers the last tab. Laws: filter labels and tab names round-trip, the
  saved state text loads back as the saved tab, sources are ordered by
  priority.
- `src/ipc.rs`: navigation nodes from herdr's workspace, tab and pane
  lists, focused-pane info, pane commands, working directories and buffers,
  the All-tab refreshes, focus requests, the JSON-RPC method of a herdr
  command line, the JSON-RPC request line and what its answer line comes
  to. Requests are made by the caller, who hands the answers in (or a
  closure that makes one request, which the contracts allow only for the
  requests the operation needs).
- `src/others.rs`: terminal escape stripping and the ssh login target of a
  command line.
- `src/text.rs`: character-level helpers (whitespace, trimming, prefixes).
- `src/cli.rs`: the command line's shape.
- `app/`: the socket and subprocess I/O, serde and clap forms of the
  library's types, crossterm key events, and the state file.
