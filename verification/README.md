# agentgate

A gateway between AI agents and the MCP servers they call. The library in
`src/` holds the gateway's decisions, verified with Verus:

- `json`, `jsonrpc`: JSON values and JSON-RPC messages as plain data; reading
  and rewriting tool-call parameters; error responses.
- `pending`: the table of forwarded calls awaiting a response, keyed by id.
- `proxy`: what happens to each line from the agent (skip, forward, reject
  with an error, forward rewritten) and from the server (forward, possibly
  with a scrubbed result, completing a pending call); the records kept of each
  call, including those never answered.
- `policy`: policy files and the decisions a policy engine hands the proxy.
  The crate holds no policy engine; the proxy takes its decisions as inputs.
- `token_bucket`: an exact, integer token bucket and its laws.
- `config`: configuration defaults and paths.
- `report`: the rows of the invocation table that `agentgate logs` prints.
- `ids`: random tokens and record identifiers.
- `dashboard`: the dashboard token, live-feed authorisation and the live-feed
  connection's steps.
- `clock`: the monotonic clock.

`app/` is the command-line program: it parses JSON text, runs the wrapped
server, appends records as JSON lines to the invocation log, prints the log's
table, and calls the library for the proxy's decisions.  Having no policy
engine, it refuses to start when given a policy file rather than run without
enforcing it.
