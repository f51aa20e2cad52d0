# puppetterm

A terminal and remote-agent workbench for SSH hosts, with an AI assistant
that can run audited actions through a small agent installed on each host.

## Layout

- `src/` — the verified library (Verus). Every rule the server applies lives
  here with a contract: SSH targets and ControlMaster sockets, `~/.ssh/config`
  and `ssh -G` parsing, the retry rules for flaky name resolution, the agent
  installer as a state machine, agent runs and their audit bookkeeping, the AI
  provider configuration (with its key sealed at rest), the OAuth (PKCE)
  login, the Anthropic request/response mapping, HTTP basic auth, and the web
  API's argument reading.
- `app/` — the headless server: HTTP routes, WebSocket events, ptys, `ssh`
  processes, SQLite, HTTP calls to AI providers. It performs what the library
  decides.
- `tests/` — tests of the library's public functions.

## Server configuration

- `PUPPETTERM_BIND`, `PUPPETTERM_PORT` — listen address (default `0.0.0.0:8080`).
- `PUPPETTERM_WEB_DIST` — static frontend directory (API only when unset).
- `PUPPETTERM_BASIC_AUTH` — `user:pass` for HTTP basic auth over everything
  but the OAuth callback.
- `PUPPETTERM_ANTHROPIC_MODELS` — comma-separated model ids offered for the
  Anthropic provider, which has no standard model listing.
