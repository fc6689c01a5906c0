# mayara_signalk_wasm

Marine radar discovery for SignalK Server, as a verified engine plus the
plugin glue around it.

The engine (`src/`, verified with Verus) does no I/O. It names the socket
calls the host must make and decides what the answers mean:

- `socket` — socket handles, how the host's status codes read, and the
  sender address of a received datagram.
- `radar` — the Furuno beacon request, the reading of radar reports, the
  SignalK delta that announces a radar, the locator's setup (create, bind to
  port 10010, enable broadcast, and, when a network interface is configured,
  receive the beacon address's traffic on that interface) and its poll cycle
  (send the beacon, receive until the socket is empty, record each radar
  once).
- `plugin` — identity, configuration, the start decision and the poll report.
- `text` — UTF-8 decoding, lower-casing and decimal rendering from std.

`app/` holds the WASM exports SignalK calls, the host imports, the plugin's
state, the JSON configuration reader (serde), and the loops that carry out
the engine's requests.
