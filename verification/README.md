# obs_webrtc

The verified core of OBS's WebRTC (WHIP) output plugin.

- `src/` is the library, verified with Verus:
  - `obs_log`: the logger's settings from `RUST_LOG` and OBS's command line,
    and the NUL-ended lines (cut into numbered parts of at most 3500
    characters) that a log record becomes for libobs's `blog`;
  - `output`: the packets and messages of the output stream, the decisions
    of its worker and a model of its whole run, its statistics (with the start
    of the connection), the plan for closing it, and the choice of
    the local addresses ICE may gather on;
  - `whip`: the headers of the WHIP offer and deletion, the session resource
    URL that the answer's `Location` designates, and the SDP answer;
  - `ffi`: the values that cross the C interface;
  - `text`: building strings, and decimal numbers.
- `app/` holds the C entry points, the `log` adapter, the WebRTC peer
  connection and the HTTP requests, which call the library for every decision.
- `tests/` runs the library on concrete values.
