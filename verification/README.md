# herdr

The logic of a terminal multiplexer's client side, verified with Verus: the
client's session loop and everything it writes to the terminal, the federation
of several servers, the Emacs layer over terminal panes, text fields, archived
agents and the dialog that creates workspaces.

* `src/` is the library. Every function states what it returns or changes, and
  Verus proves it. Laws that relate several functions stand beside them as
  public proof functions.
* `tests/` runs the library on concrete values, with the real outside crates.
* `app/` is the program around the library: sockets, processes, files, the
  terminal and the JSON and frame formats on the wire.

## Modules

| module | what it holds |
| --- | --- |
| `client` | the handshake, the session loop, input, graphics, overlays, previews |
| `federation` | endpoints, watches with their backoff, the directory, projections |
| `emacs` | keymaps, rings, search, text mode, the minibuffer, key dispatch |
| `text_input`, `sexp` | single-line fields and balanced expressions in them |
| `event_hub` | numbered events that can be replayed |
| `session`, `schema` | what a session looks like to other members |
| `agent_archive`, `agent_reopen` | agent sessions and how they come back |
| `workspace_creation` | the dialog |
| `runtime_identity` | the ids of a runtime |
| `cli` | the federation commands |

What an outside crate computes is named, not modelled: the contracts of the few
functions that call one say in their doc comments what is taken on trust.
