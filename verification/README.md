# odoo-mcp

An Odoo command-line connector and MCP server (JSON-RPC 2.0 over stdio),
built around a library whose logic is specified and proved with Verus.

## Layout

- `src/` — the verified library.
  - `text.rs`: character-level string helpers (trim, split, search, padding).
  - `json.rs`: JSON values with a mathematical model (`JsonV`).
  - `client.rs`: the Odoo connection — JSON-RPC envelopes, `authenticate`
    and `execute_kw` calls, plain HTTP requests, and how replies are read.
  - `sources.rs`: git runs that keep source trees up to date, and how the
    Python files that define a model are found and presented.
  - `mcp.rs`: the MCP protocol — replies, the tool catalogue (with
    `odoo_execute_kw` hidden and refused in safe mode), how tool calls are
    read and how each incoming message is answered.
  - `paging.rs`: searches fetched page by page, at most 300 records a page,
    and the proof that the pages give every record.
  - `config.rs`: connection profiles (with their safe mode) and the
    `config` commands.
  - `cli.rs`: which settings apply, which commands authenticate, and the
    queries the commands send.
- `app/` — the program: argument parsing, the configuration file, HTTP,
  git and grep runs, and the server loop. It performs what the library
  decides.
- `tests/` — tests of the library.
