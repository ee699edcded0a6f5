# minibrowser

The decision logic of a minimal Tauri browser with workspaces, written in
Verus and verified.

- `src/adblock.rs`: the blocked ad and tracking domains (subdomains included,
  ASCII case and trailing dots ignored) and the URL fragments of ads.
- `src/query.rs`: what the address bar opens for a query and a search engine.
- `src/workspaces.rs`: the ring of workspaces `ws0`, `ws1`, ... (at most 12),
  switching and one-at-a-time creation.
- `src/settings.rs`: ad blocking and the search engine, with their defaults.
- `src/memory.rs`: the memory manager's state machine: checks of idle
  workspaces, suspension, discard under memory pressure, restore on return.
- `src/restore.rs`: which addresses a restored page may load.
- `src/process_tree.rs`: the process tree of the browser and its working set.
- `src/text.rs`: string helpers over the character view of strings.
- `app/`: the Tauri application around the library (windows, webviews,
  commands, settings file, Windows process sampling and WebView2 suspension).
