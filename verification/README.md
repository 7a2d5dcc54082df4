# celily

Run a command in an ephemeral, network-isolated LXD/Incus instance.

- `src/` is the verified library (Verus): configuration merging and profile
  selection, mount and proxy-socket policy, instance and bridge naming,
  shell quoting, the LXD/Incus command lines, the egress ACL, the proxy's
  JSON configuration, and the decisions of the instance lifecycle. Work
  that happens outside the process (running `lxc`, `git`, `rbw`,
  `mitmdump`) is described by command lines and traits; the library
  decides what to run and what the answers mean.
- `tests/` exercises the library on concrete values.
- `app/` is the `celily` program: argument parsing (clap), reading TOML
  files (serde, toml), inspecting the host, running processes and the
  proxy, and the main loop that feeds the library.
