# clear_packets

Clears packets that are stuck on an IBC channel, with a verified core.

- `src/` is the library, verified with Verus: reading the command lines (`args`,
  `commands`), overriding signing keys in the configuration (`config`), finding
  the packet that a transaction sent (`text`, `identifier`, `height`, `event`,
  `packet`), and deciding what to do next in a run of each command
  (`packets_run`, `manual_run`).
- `app/` is the program around it: it starts the chains, talks to them, and
  reports.
- `tests/` runs the library.

What the library takes from other crates without proof stands behind functions
marked `external_body`; the comment above each says what is claimed of the call.
