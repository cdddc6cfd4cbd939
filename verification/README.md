# paramcp

A Model Context Protocol hub: it answers JSON-RPC 2.0 requests over STDIO or
HTTP, runs a few built-in tools (`sys_info`, `calculator`, `file_search`,
`fetch_url`), and forwards calls of other tools to sub-server processes,
renaming clashing tool names to `server__tool`.

## Layout

- `src/` — the verified library (Verus).
  - `json.rs` — JSON values and their mathematical model.
  - `protocol.rs` — JSON-RPC and MCP payloads, their JSON forms and decoding.
  - `server.rs` — request dispatch: each request leads to a response, a
    built-in tool call, or a call forwarded to a sub-server (`Step`).
  - `hub.rs` — sub-server configuration, request renumbering towards a
    sub-server (`PendingRequests`), and tool routing (`HubManager`).
  - `tools/` — the tool registry and the logic of the built-in tools; the
    calculator compiles expressions into postfix programs.
  - `transport/` — the header checks of `POST /mcp`, the health body, CORS
    settings, and line handling of the STDIO transport.
  - `pattern.rs` — regular expressions through the `regex` crate.
  - `text.rs` — string helpers.
- `app/` — the program around the library: command line, logging, process
  and network I/O, serde forms of the protocol types, and floating-point
  evaluation of compiled calculator programs.
- `tests/` — tests of the library.

## Main properties proved

- Every answer carries the ID of the request it answers; a request that is
  not JSON-RPC 2.0 is refused as an invalid request.
- A call of a built-in tool runs the built-in tool; a call of a routed tool
  is forwarded to its sub-server under the tool's own name.
- A tool merged from a sub-server is listed under its exposed name and
  routed back to its sub-server, which has a host; built-in names are never
  routed, and a name that is neither routed nor registered is not found.
- A reply from a sub-server finds the request it answers and gets the
  caller's own ID back; requests sent to a sub-server carry increasing
  numbers until the counter wraps.
- White space between two texts does not change their calculator tokens.
- Running a compiled calculator program never lacks operands, leaves one
  value when compilation succeeded, and gives what evaluating the
  expression while reading it gives, for any interpretation of the
  arithmetic.
