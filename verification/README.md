# mc_launcher

The core logic of a launcher service for Minecraft, written and proved in Verus.

- `src/` is the verified library.
  - `plan`: what has to be downloaded for a version, and where it goes
  - `download`: the sources of a file, how often they are tried, and when a file is accepted
  - `digest`: SHA-1 digests
  - `natives`: which archives hold native libraries, and which of their entries are unpacked
  - `launcher`: the command line that starts the game
  - `versions`: the sorting of versions into kinds
  - `service`, `tasks`: the jobs of the service and what they report
  - `text`, `table`, `paths`, `patterns`: the text, lookup, path and pattern functions that the
    others use
- `tests/` runs the library.
- `app/` is the service around it: the HTTP server, the network and the file system.

What the library takes from other crates and from the standard library without proof stands in
functions marked `external_body`, each with a comment that says what is claimed of it.
