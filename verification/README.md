# paker

The core of Paker, a desktop S3 browser with an assistant, as a Verus-verified
library, and its MCP server.

- `src/` — the library. Every function carries a contract that Verus proves.
  - Text and paths: `text`, `scan` (Unicode-aware searching), `path_safety`
    (object keys that cannot leave a download folder), `local_fs` (the folders
    and files the UI may reach, local listings).
  - The assistant: `rule_parser` (natural-language index queries),
    `index_query`, `templates` (aws-cli and rclone suggestions), `explain`,
    `policy` (what a proposal may do), `hmac_token` (signed confirmation
    tokens), `proposal_store` (pending proposals: claimed once, expiring),
    `plans` and `execute` (delete, rename and sync plans; what a confirmed
    delete sends and how its outcome is recorded),
    `rename_pattern`, `llm` (model discovery and merging with the rules).
  - Storage and state: `records`, `keyed`, `ui_state`, `listing_cache` (the
    LRU of first listing pages), `secrets` and `crypto` (AES-GCM sealed files,
    Argon2 master keys, wrapped vault keys, recovery escrow), `vault` (lock,
    unlock with back-off, master key changes).
  - Transfers and indexing: `s3_ops`, `transfer`, `transfer_run` (the
    progress of one upload or download, event by event), `jobs`, `indexing`.
  - Updates: `update` (release version comparison).
- `tests/` — tests of the library on concrete values.
- `app/` — `paker-mcp`, the Model Context Protocol server over stdio, which
  reads the saved connections and answers tool calls with the library.

Outside work — S3 requests, the SQLite index, the OS keychain, windows and
dialogs — stays with the caller: the library takes what such work returns as
plain values and says what to do next.
