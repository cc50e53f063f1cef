# gluetun_connector

A companion service for the Gluetun VPN container: it proxies Gluetun's
control API to a small web interface and watches the tunnel, restarting
Gluetun and the containers that share its network namespace when sites stop
being reachable through it.

- `src/` is the verified library (Verus): settings, authentication headers,
  the sites list, judging probes, reading Docker's container data, the
  failure counters, the replies of the HTTP interface, and the monitor's
  check cycle as a state machine whose laws are proved in `monitor.rs` and
  `failures.rs`.
- `app/` is the program around it: environment, Docker and HTTP I/O, the
  timer that runs the check cycle, and the axum server.
- `tests/` exercises the library on concrete values.
