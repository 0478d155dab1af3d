# enteract

The decision logic of the Enteract desktop assistant, written in Verus and
proved against its contracts, with a thin layer of ordinary Rust around it.

- `src/` is the verified library. Each module states what its functions
  compute over mathematical models (`Seq`, `Map`, `Multiset`, `int`) and
  proves it:
  - `text`, `chunking`, `tokenizer`: character-level text utilities, text
    cleaning and token-window chunking over the `cl100k_base` tokenizer;
  - `store`, `data`: conversation records, backups, the database error
    model, the log buffer, the connection pool's accounting and the health
    report;
  - `stream`, `ollama`, `transcript`: supervision of streamed model answers,
    prompts, tool calls in answers, and transcript cleaning and checks;
  - `mcp`, `input`: computer-use sessions, approvals, execution plans, and
    the keyboard and mouse events the tools send;
  - `rag`, `files`: uploads, document text, chunk windows, content hashes
    and search statements;
  - `gpu`, `audio`, `eye`, `screen`: reading graphics card reports, choosing
    loopback devices, the eye tracker's state, screenshot regions.
- `app/` holds what cannot be verified here: files, SQLite, system commands,
  JSON shapes for the user interface, and floating-point estimates.
- `tests/` runs the library on concrete values.
