# cosmic-disks

A disk and partition manager for the COSMIC desktop: it lists drives and their
volumes over udisks2, mounts (at udisks2's managed place or at a chosen path,
optionally with a persistent `/etc/fstab` entry), unmounts, formats and creates
partitions. It runs as a desktop application, or as a command line when given
arguments (`list-disks`, `list-volumes`, `mount`, `unmount`, `format`).

## Layout

- `src/` is the library, verified with Verus. It holds the program's logic:
  - `state.rs`: the application state machine. `AppState::handle` takes a
    `Message` and returns the outside work (`Effect`) to perform; its contract
    is the transition relation `step`, and the proof functions beside it state
    the properties that span several messages.
  - `disks.rs`: the drive and volume types and the `/etc/fstab` lookup.
  - `scan.rs`: assembling drives and volumes from the udisks2 object list.
  - `volumes.rs`: mount-path resolution, the mount plan, fstab fields, D-Bus
    option values and result messages.
  - `portal.rs`: the folder chosen in the portal's picker (through the `url`
    crate).
  - `encoding.rs`: UTF-8 facts behind the D-Bus byte-array round trip.
  - `cli.rs`: the text reports of the command line.
  - `ui.rs`: what the drive cards show (which selection, colour class, free
    space, actions).
  - `watch.rs`: the debounce and reconnect decisions of the udisks2 watcher.
  - `message.rs`, `config.rs`, `sizes.rs`, `text.rs`: messages and panels,
    preferences, byte sizes (through the `bytesize` crate), string helpers.
- `app/` is the program around it: D-Bus calls, file reads, the portal, the
  COSMIC widgets and drawing, translations and argument parsing.
- `tests/` runs the library on concrete values.
