# ctxpack

A verified library for ctxpack, a local tool that prepares source-free
context for coding sessions: file inventories and their freshness,
symbol and import extraction, lexical and semantic retrieval evidence,
related tests and their commands, workspace manifests, feedback and
retrieval-policy metrics, storage schema checks, and the JSON-RPC side of
its MCP server.

- `src/` is the library, written in Verus: the public functions state
  what they return in their contracts, the calls into outside crates sit
  behind small trusted wrappers whose contracts are documented where they
  stand, and laws that span functions are proof functions.
- `tests/` exercises the library on concrete values.
- `app/` is the command line: it serves the MCP protocol over stdio,
  reading request lines and writing the replies that the library builds.
  It has no repository indexer, so tool calls and repository resources
  are answered with an error that says so.
