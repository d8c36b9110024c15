# myapp

A client library, CLI and MCP server for the MYAPP API, whose rules are
specified and proved with Verus.

- `src/` is the verified library: configuration layering (`config`,
  `mcp_config`, `env`), the OAuth 2.1 + PKCE authorization server state
  machine (`store`, `oauth`, `pkce`), the transport-security checks and route
  plan of the HTTP server (`server`), secret redaction of JSON handed to the
  model (`redact`), the request/response rules of the API client (`client`,
  `api`, `error`, `models`), and the tools and CLI commands (`tools`). Calls
  into outside crates (SHA-256, base64, percent-encoding, constant-time
  comparison, header validation, JSON parsing, UUIDs, the clock) go through
  small trusted wrappers whose contracts state what the crates document.
- `tests/` exercises the library on concrete values.
- `app/` is the program around it: argument parsing, file and network I/O,
  the axum routes and the rmcp tool handler. One binary serves both
  programs: invoked as `myapp-mcp` it runs the MCP server, otherwise the
  terminal client.
