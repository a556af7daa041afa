# openmgmt

The rules of a local-first project and task manager, written in Verus and proved against their
contracts: urgency scoring and the seven-column board, task and project records, the day
timeline and calendar export, the AI tool registry and permission gate, the MCP server's token
scopes, audit rows and rate window, the GPT bridge's request checks, and the sync protocol
(conflict policy, apply order, push decisions, checkpoints, the client's sync run and OAuth
helpers).

- `src/` — the verified library. Each public function states what it returns in `ensures`;
  public proof functions named `lemma_*` state laws that span functions.
- `tests/` — tests of the library on concrete values.
- `app/` — a small command-line front end: configuration from the environment, API-key
  generation, and the timeline's pixel arithmetic, which uses floating point.

Outside crates are called from `src/` through small trusted wrappers whose contracts name what
the crate returns: chrono for dates, sha2 and base64 for key hashing and PKCE, rand and uuid for
fresh tokens and ids, serde_json for JSON documents and url for the authorization URL.
