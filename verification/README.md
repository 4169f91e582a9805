# wvm

A control plane for a Windows virtual machine: a program or an agent drives the guest over a typed
protocol, and every request passes a capability check and leaves a record in a journal.

The library in `src/` holds what the project decides and computes, with its behaviour stated in
`requires` and `ensures` clauses and proved by Verus. `app/` holds the two programs around it, the
host's `wvm` and the guest's `wvm-guest`: arguments, files, sockets, processes and the Windows API.

## The library

| module | what it holds |
|---|---|
| `ipc`, `framing` | the messages, the grant they are built under, and length-prefixed frames |
| `base64`, `png`, `json`, `text` | the formats that messages and files are written in |
| `segments`, `posix` | paths as lists of names, and joining them |
| `guest::paths`, `transfer`, `fsio`, `chunk`, `pull` | where a transfer may land, and its two directions on the guest's side |
| `guest::dispatch`, `win32`, `capture`, `transport`, `deadline`, `log` | what the guest does with a request |
| `host::policy`, `server`, `journal` | what a caller may do, by the rules that the guest goes by too, and the record of what was done |
| `host::vm`, `shell`, `supervisor`, `lifecycle`, `qmp`, `display` | a VM's definition, its command line, its process and its monitor |
| `host::push`, `pull`, `guestclient` | the host's side of a transfer and of the guest's control channel |
| `host::input`, `image` | keys, pointer and screen |
| `host::cli`, `report`, `doctor`, `capabilities` | what the command takes, and what it says |

## What is proved

Each function's contract says what it returns for every input. Properties that span functions are
public proof functions beside them, among them:

- what a frame, a base64 text, a PNG file or a command line was written from is what is read back;
- a guest path that is accepted lies inside its root, on whole names, whatever `..` it holds, and so
  does what is handed on to be opened; the host and the guest decide alike, for every root and path;
- neither the separators of a guest path nor the case of its ASCII letters change what is decided of it;
- a file that is moved in chunks arrives byte for byte, in either direction, a request that is
  repeated has the same reply, and the host stores no more than the guest announced;
- a record that is appended to the journal is read back, also behind a line that was torn;
- no request outside the grant is dispatched, and every refusal is on record before it is answered;
- every key that is pressed is released, and no pointer leaves the screen;
- no reply reports as done what was not done.

What comes from `serde_json` and from parts of the standard library is behind small functions whose
contracts are taken on trust: they stand in `json` and in `text`.
