# braidpipe

Never-dark AI video middleware. A live stream is split in two: one branch carries the frames
untouched, the other through a worker process that reads and rewrites them in shared memory. If
the worker crashes, stalls or falls behind, the output keeps running on the untouched frames.

The library in `src/` holds the decisions, formats and state machines of the daemon. Each public
function states in its contract what it returns and changes, and Verus proves it.

| Module | Contents |
| --- | --- |
| `fsm` | The watchdog that selects a branch by the worker's health |
| `relay` | The roundtrip of one frame through the worker |
| `shm` | The ring of frame slots in shared memory, byte for byte |
| `uds` | The control channel: announcements, acknowledgements, the failure streak |
| `net` | The wire format and the connection state of a worker on another machine |
| `preset` | Latency/bandwidth profiles and the sink they expand into |
| `pipeline` | The description of the dual-branch pipeline and its probes |
| `hwaccel` | Which hardware decoders to promote and which encoder to prefer |
| `daemon` | What the command line amounts to |
| `metrics`, `metrics_server` | The registry, the metrics page, and the end of the worker process |
| `double`, `bytes`, `text` | Double-precision arithmetic on bit patterns, little-endian bytes, texts |
| `ports` | The vocabulary the modules share |

Public proof functions named `law_...` state what holds across functions: that a frame is never
lost, that a failed roundtrip gives its slot back, that thirty failures in a row lose the stream
and one success regains it, that what is written to a slot or encoded for the wire reads back.

Fractional numbers cross the library's border as the bit patterns of doubles, and their decimal
texts as strings; parsing and formatting them is left to the caller.

`app/` is the daemon around the library: command line, GStreamer, sockets, processes, signals.
`tests/` runs the library on concrete values.
