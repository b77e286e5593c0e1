# trc-rtt-proxy

A proxy between debug probes and network clients. A client asks for a session on
one core of a target; the proxy opens the debug probe, sets the core up, attaches
to the RTT control block of the trace recorder and streams what it reads to the
client. Several clients can share a probe.

## Layout

- `src/` is the library: all the decisions of the proxy, verified with Verus. It
  touches neither probes nor sockets. A manager, a probe or a session is told to do
  something and answers with the next thing to be done; what came of that is handed
  back, and so on until nothing is left to do.
  - `manager`, `probe_state`, `rtt_session`: the three state machines, and
    `setup` for opening a probe.
  - `manager_model`, `probe_model`, `session_model`: what each order and each
    answer leads to.
  - `session_laws`, `turn_laws`, `plan_laws`, `probe_laws`, `count_laws`,
    `schedule_laws`, `manager_laws`, `request_laws`, `progress_laws`: what follows from that.
  - `protocol`, `probe_id`, `command`, `session_types`, `target`, `manager_error`:
    the data they speak of.
  - `rate_limiter`, `clock`, `shared_state`, `metrics`, `trc_command`, `text`: what
    they are built from.
- `app/` is the program around it: the command line, the listener, the threads, and
  the calls that drive probes, cores and sockets.
- `tests/` runs the library on concrete values.

What the library takes on trust is the clock, the random session ids and the way
probe-rs reads probe selectors and wire protocol names. Each of these stands behind
one small function whose doc comment says what is claimed of it.
