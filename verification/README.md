# rust_ais

Boats of a fleet share their AIS position reports. Each boat's client stamps
its reports with the time, sends them to a server over a strong (TCP) and a
weak (UDP) link, and passes them to its neighbours through a broadcaster that
forwards each message once. The server takes both kinds of traffic and
publishes the raw NMEA sentences.

## Layout

- `src/` is the verified library (Verus):
  - `utils.rs`: the fixed-size message buffer, the `TIMESTAMP` framing of a
    sentence and its time, and splitting a message at the marker;
  - `text.rs`: trimming and searching characters of a string;
  - `client.rs`: stamping a boat state report, reading the raw sentence back
    out of a buffer, the senders that carry no I/O logic of their own;
  - `server.rs`: turning a datagram into a message buffer, the server's
    addresses, the weak receiver's one-time hand-out of its socket;
  - `broadcaster.rs`: the set of messages already passed on, the duplicate
    check, and the broadcasters' hand-out of their arguments.
- `app/` is the program around it: sockets, channels, tasks, the HTTP call to
  the AIS encoding service, and the boat state sources.
- `tests/` runs the library on concrete values.
