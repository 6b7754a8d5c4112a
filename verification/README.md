# libnetwork_daemon

The decision logic of a FreeBSD network daemon (interfaces, DHCPv4, WiFi
through wpa_supplicant, routes, stored profiles) and of its terminal client,
written in Verus. Every function under `src/` carries a contract and is
checked by the verifier; the operating-system work (sockets, netlink, ioctl,
files, the event loops) stays outside and feeds plain values in.

Layout:

- `src/` — the verified library. Text and address formats (`mac`, `ssid`,
  `ip`, `ip_text`, `events`), the interface table (`assoc`, `table`,
  `interface`), DHCP timers and replies (`dhcp`, `dhcp_reply`), route
  bookkeeping (`backup`, `route_table`, `route_plan`), the daemon's and
  managers' decisions (`daemon`, `manager` with what a netlink link notice
  means, `wifi`, `actions`), stored
  profiles (`config`, `known`, `storage`, `persist`), the logical
  interfaces the daemon creates itself (`links`) and the client's screens and keys
  (`rows`, `editor`, `editor_values`, `keys`). Laws that span several
  functions are public proof functions beside them (`ip_text_laws` holds the
  IPv6 round trip, `status_laws` those of the `STATUS` parser).
- `tests/` — executable tests of the library.
- `app/` — a small command-line front end that reads the TOML configuration
  and hands it to the library.
