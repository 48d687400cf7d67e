# HammerHead

A browser-based remote head for the URC-200 transceiver: tune, scan, listen and
talk over the network. The control logic is written in Verus; what each function
does is stated in its contract and proved.

- `src/` is the verified library. It does no I/O. Serial bytes, socket messages,
  database rows, samples and instants come in as plain values; replies, commands
  and actions go out as plain values.
- `app/` runs it: the server, the probe and the latency tool, with the serial
  port, the sound adapter, the database, the sockets, and everything in floating
  point.
- `tests/` holds the tests of the library.

| Modules                                     | Subject                                        |
|---------------------------------------------|------------------------------------------------|
| `command`, `freq`, `inquiry`, `response`     | the radio's wire protocol                      |
| `transport`, `radio`, `poller`, `serial`     | one command at a time; periodic inquiries      |
| `ptt`, `control`                             | who may key the transmitter, and for how long  |
| `commands`, `channels`, `csv_import`, `http` | requests, the channel library, its CSV import  |
| `scan`, `telemetry`                          | the scanner; what clients are told             |
| `audio`, `dsp`, `spectrum`                   | samples, filter settings, spectrum frames      |
| `lifecycle`, `probe`, `latency`              | the process from start to end; the two tools   |
| `text`, `single`                             | text helpers; single-precision numbers by bits |

Proof functions whose names start with `law_` state what holds of several
functions together: that a granted transmission always has an owner or is being
unkeyed, that the parser gives back what the radio sent however the line cuts it
up, that no request leads to a command that transmits, that a failed exchange
ends a tuning and leaves the tone alone, that every session that was welcomed
ends with one goodbye, that the scanner comes to every channel and tells new
clients what it tuned last, and so on.

The few functions of `std` and of the `csv` crate that the library relies on are
declared where they are used, mostly in `text`, with a comment on what is taken
for granted of them.
