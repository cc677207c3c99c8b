# cosmic-monitor-positiond

A daemon for the COSMIC desktop that saves the arrangement of the monitors and puts it
back after the session wakes from idle or a display is plugged in.

- `src/` is the library, verified with Verus:
  - `backoff.rs`: the pauses between attempts (2, 4, 8, 16, then 30 seconds).
  - `reposition.rs`: the repositioning task as a state machine (event in, action out),
    with the laws on the attempt limit.
  - `toml_doc.rs`: the `toml_edit` calls the state file goes through, and the model of a
    TOML document the contracts speak of.
  - `monitor.rs`: reading and merging the state file, the layout of the current outputs,
    the presence check, and the save/load law.
  - `positioning.rs`: how one attempt places the monitors, one session and one turn
    each, in order.
  - `session.rs`: the state file's path, protocol messages, idle and hot-plug events.
- `app/main.rs` is the program: command line, files, the Wayland and output-management
  connections, the event loop and the async task, all deciding through the library.
- `tests/` runs the library on concrete values.
