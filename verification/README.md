# rust_wow

Verified core of a rotation-profile manager for a 32-bit game client, written
in Verus.

- `src/` is the library, verified by Verus:
  - `text`: character-level replacement and search, with the std conversions
    it relies on;
  - `xml`: entity encoding and decoding of profile text, and the writing of
    rotation and ability tables as XML documents;
  - `loader`: readers that turn the node events of a profile's rotation and
    ability files into tables;
  - `profiles`: profiles read from folder listings;
  - `module`, `threads`, `process`: process snapshots, module tables, thread
    selection, and the byte-by-byte copy of a function with its relative
    calls relocated;
  - `stubs`: the x86 byte sequences written into the client (jumps, calls,
    the script-running detour);
  - `d3d9`, `wow`: the device function table and script running.
- `tests/` exercises the library on concrete values.
- `app/` is the program around it: Win32 process and memory access, XmlLite
  reading, directory listing, and the egui window.
