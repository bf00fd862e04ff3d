# todo_core

The core of a local-first, peer-to-peer task manager, written in Verus.

`src/` is the verified library. It holds the decisions of the system as
functions with contracts over mathematical models:

- sync: sequence ranges, their clipping and cutting (`ranges`), transfer checkpoints
  (`checkpoint`, `sync`), the per-peer sync state machine (`orchestrator`),
  backoff tables (`backoff`), scheduling and trigger routing (`scheduler`,
  `triggers`), network generations (`network_runtime`, `sync_runtime`),
  per-peer connection state (`peer_runtime`), compaction watermarks
  (`compaction`);
- membership and pairing decisions (`member_commands`, `pairing_flow`);
- the replica: recovery plans for failed opens (`recovery`), command
  dispatch into operations, the space guard and the member set
  (`dispatch`), admission of remote operations (`apply`), runtime status
  (`runtime`), subscriptions and their bounded mailboxes (`subscription`),
  rebuild cutoffs and snapshot adoption (`rebuild`);
- the read views: scopes, paging, summaries, details, search highlighting
  and HTML escaping (`query`), and the user-interface boundary (`dto`);
- encrypted backups (`backup`), over argon2 and chacha20poly1305;
- LAN discovery: candidate conversion, hint encoding, the snapshot of
  resolved services, status (`discovery`,
  `background_sync`);
- shared helpers: identities (`ids`), a sorted map keyed by device
  (`devmap`), text (`text`).

`app/` is the Windows shell: SQLite storage, mDNS, threads, the Tauri
command layer and DPAPI. It calls the library for every decision.

`tests/` exercises the library on concrete values.
