# nanorp

The core of a self-hosted roleplay chat server, written in Verus.

- `src/` is the library, verified by Verus: prompt building and placeholder
  resolution, the stored forms of characters, providers (API keys sealed
  with ChaCha20-Poly1305) and settings, message and attachment planning,
  stream decoding for Ollama and OpenAI-style backends, the registry of
  in-flight generations, schema migrations, sanitised Markdown rendering,
  and the decisions of the web front end's screens (forms, lists, toasts,
  focus handling).
- `tests/` runs the library on concrete values.
- `app/` is the unverified shell around it: SQLite access, files on disk,
  HTTP calls to the model backends, JSON and the streaming task.

Calls into outside crates (base64, chacha20poly1305, uuid, dirs, serde_json,
pulldown-cmark) go through a few trusted wrappers whose contracts are stated in their doc
comments.
