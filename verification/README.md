# fzcomputerai

The logic of a manager for a computer-vision MCP engine (`cua-driver`), with
its behaviour stated in Verus contracts and proved.

`src/` is the verified library:

- `oauth`, `endpoints`, `oauth_laws` — an OAuth 2.1 authorization server for
  MCP connectors (dynamic client registration, authorization code with PKCE
  S256, refresh-token rotation, client metadata documents), with its laws:
  a code is used once, a refresh token rotates, PKCE is checked, a wrong
  password changes nothing, only POSTs change state, revoked tokens fail,
  expiry collection keeps live tokens.
- `form`, `html`, `http`, `json`, `redirect`, `crypto`, `table`, `text` — the
  pieces it is made of: URL encoding, HTML escaping, HTTP responses, JSON
  documents, redirect URI matching (loopback on any port), base64url and hex.
- `tunnel`, `tunnel_laws`, `gate` — public tunnels (Cloudflare, ngrok, SSH):
  the command line, the public URL found in a log, the exposure probe, the
  password in the URL path and the relay's decision on each request head.
- `tls`, `tls_settings` — HTTPS in front of the engine: certificate
  inspection (x509-parser), names of the self-signed certificate, the probe,
  the ACME HTTP-01 answer, the saved settings.
- `self_signed` — the self-signed certificate made through rcgen (names,
  validity, usages) and read back through x509-parser; when it is renewed.
- `daemon` — starting the engine as a state machine: an engine that already
  answers is left alone; otherwise stop, wait, launch with retries, fall
  back to the scheduled task.
- `portproxy` — LAN forwarding as a state machine (this process first,
  the netsh rule only when the LAN bind fails) and the rule's three-state badge.
- `acme` — Let's Encrypt issuance as a state machine over the CA's statuses.
- `mcp_tools` — the engine's MCP tool catalogue, its filter and the status
  texts of running a tool.
- `gui_update` — the script that downloads this program's installer and
  marks it ready only after its SHA-256 matched.
- `network`, `config`, `update`, `tray`, `ui` — netstat and portproxy readings,
  `.ini` and registry preferences, versions and the engine installer, the
  debug console, the tray's commands.

`app/` is a command-line host around it: sockets, files, processes, the
rustls listener, the Let's Encrypt client and the Windows job object.
