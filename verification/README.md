# Conjure

Conjure turns local `sh` or PowerShell scripts into typed MCP tools. The
`conjure` program serves a local UI and HTTP API, or runs a stdio MCP server
(`conjure --mcp`).

A fresh database is seeded with one disabled debate template in the AI
category, `codex_debate`, which runs the Codex CLI on a topic with six
parameters (topic, codex_position, context, mode, language, model).

## Layout

- `src/` is the library, verified with Verus. It holds the platform's rules:
  validation of tools and parameters, the input schema of a tool, how call
  arguments are coerced, checked and exported to the environment of a run,
  the choice of the working directory, the JSON Schema check of call
  arguments, how a tool's command is chosen, output capture, settings
  cleaning, the tool registry, call log filters, export and import, the command line, and the answers of the MCP server.
  Each public function states its result in its contract; the laws that
  relate functions are public proof functions.
- `app/` is the program around it: SQLite storage, the HTTP server, process
  execution, the stdio loop, and the serde forms of the library's types.
- `tests/` exercises the library on concrete values.
