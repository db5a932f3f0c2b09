# rns_tools

Tools for the Reticulum network, with their logic verified by Verus:

| Program | What it does |
|---|---|
| `rnid` | makes identities, and signs, checks, encrypts and decrypts with them |
| `rnpath` | looks at and changes the paths that a running instance knows |
| `rnmcp` | answers JSON-RPC requests with what a running instance knows |
| `rnsniff` | prints the announcements that it hears |
| `rnpage` | serves pages to NomadNet clients |
| `rnsh` | a shell on another machine |
| `rnperf` | measures the throughput of a link |
| `rngit`, `git-remote-rns` | a git service, and its clients |

## Layout

- `src/` is the library. It decides what is sent, shown, stored or refused, and
  its contracts say so exactly. It does no input or output: where a decision needs
  a git command, a file or a message from a link, a function says what it needs,
  and is called again with what came of it.
- `tests/` runs the library on concrete values.
- `app/` holds the programs: they read and write files, run git, and talk to links
  and to the control port of an instance.

## What is not proved

Calls into other crates stand behind small functions whose contracts are taken as
given. Each says in its comment what it claims of the crate. They are in

- `text` and `digits` (characters, UTF-8, hexadecimal digits),
- `hash`, `keys` and `address` (digests, signatures, encryption, addresses),
- `msgpack`, `json` and `codec` (formats),
- `shell` (compression).

Numbers of floating point are carried as bits, and worded by `app/`.
