# emailbrain_backend

The EmailBrain backend serves emails, LoRA adapters and chat completions over
HTTP. This crate holds its request-handling logic, verified with Verus, and a
thin server around it.

- `src/` — the verified library
  - `text` — character-level text model: white space, trimming, word counts,
    decimal integers, prefixes, splitting
  - `json` — JSON documents, decoding reply bodies, JSON Pointer lookups, reading chat replies and
    building request bodies
  - `error` — API errors and the mapping of failed upstream requests
  - `config` — inference provider, upstream endpoints, limits, pagination
  - `origins` — the front-end origins allowed for cross-origin requests
  - `email` — validation of submitted emails and the email endpoints' answers
  - `adapter` — locating an adapter's files under the project root
  - `chat` — the chat workflow as a state machine, and the chat log rows
  - `storage` — database layout decisions and the seed rows of an empty database
- `app/` — the axum server: routes, SQLite access, file checks and HTTP calls
  to LM Studio and JKCA, driving the library's chat state machine
- `tests/` — tests of the library
