# dfx_extensions

The verified core of the `dfx` extensions (`dfx nns`, `dfx sns` and their
shared utilities), written in Verus.

- `src/` is the library. Its functions are verified, except a few small
  trusted wrappers, each around one outside call (`url`, `semver`,
  `flate2`, `String::push`), whose contracts are stated and not proved:
  - `network`: reading `--network-mapping` values and the network selection.
  - `dfx`: reading what `dfx --version`, `dfx info replica-rev` and
    `dfx info webserver-port` print; the `dfx` cache handle.
  - `manifest`: generating the subcommand and argument entries of an
    extension manifest from a command description.
  - `sns`, `nns`: the options of the commands and the argument lists,
    addresses, checks and reports of the SNS and NNS commands.
  - `install`: the steps of `dfx nns install` as a state machine (state and
    outcome in, next state and action out), the ledger test accounts, the
    canister id checks and the local ids that `dfx nns import` records.
  - `sorted`: the order of `String`s and insertion into entries kept in
    ascending key order, as a map keyed by text holds them.
  - `download`: download addresses of IC binaries and canister wasms, and
    the gzip decompression of what was downloaded.
  - `address`: URL parsing through the `url` crate.
  - `text`: the character-level reading and writing these build on.
- `app/` runs processes, downloads files, talks to the network and parses
  the command line with `clap`, and hands plain values to the library; it
  performs the actions that the installation steps ask for and reports
  their outcomes back.
- `tests/` exercises the library on concrete values.
