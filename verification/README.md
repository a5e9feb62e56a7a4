# device_hub

A group of devices sharing files. A group server keeps, for each device of a
group, the spec the device registered (address, OS, port) and the file system
it shares; devices fetch files from each other over TCP; a command-line
client joins a group, lists its devices and asks them for files.

- `src/` is the verified library (Verus):
  - `device_manager.rs`: the group registry, modelled as two maps from device
    ids (the 128 bits of a UUID) to specs and to file systems, with the
    ordered listings the client numbers devices by;
  - `network.rs`: the file transfer: the listen address, the request and
    reply bytes, and the path a received file is stored under (the final
    component of the requested path, proved to be a single plain component);
  - `logger.rs`: which log records the server prints and the line it prints;
  - `cli.rs`: the client's decisions: prompt answers, selections, the
    server channel's URL (read through the `url` crate), the device listing;
  - `ids.rs`: UUID text forms through the `uuid` crate;
  - `text.rs`: decimal rendering, whitespace trimming and number parsing as
    std does them.
- `tests/` exercise the library, comparing it with std and the outside crates.
- `app/` holds the I/O: sockets, files, the terminal, the `log` registration,
  the websocket channel, the client's run and menu loop over an interface to
  the group server, and the serde forms of the records.
