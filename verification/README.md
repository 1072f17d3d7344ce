# Puzzle

Puzzle is a small terminal client for a shared Codex app-server. It lists the primary thread of each
Muster window with the latest activity first, shows the client of the selected window in a tmux pane
beside the list, and asks for a short summary of what each idle thread did last. Around that list it
has a reader for conversations, a bridge between a JSON-RPC client and a wicket, and the files that a
window keeps.

`src/` is the library: what is decided and computed, stated in contracts and proved with Verus.
`app/` is the program around it: the terminal, tmux, sockets and files. `tests/` run the library on
concrete values.

| modules | what they hold |
| --- | --- |
| `browser`, `view`, `window`, `screen`, `loading`, `summary` | the list of windows, what keys and the server do to it, how it is loaded and summarized |
| `tmux` | the commands that bring a client into the viewport |
| `app`, `render`, `markdown`, `look`, `textarea`, `keys` | the reader of a conversation and the text area |
| `bridge`, `frame`, `history`, `patch` | the bridge between a client and the wicket |
| `wicket`, `easement`, `outbox`, and the module of `WicketConnection` | the messages of the connections |
| `config`, `cache`, `sessions`, `transcript`, `exchange`, `tailer`, `parser`, `model` | the files and their entries |
| `json`, `chars`, `paths`, `strmap`, `fresh` | values, texts, paths, maps, and what differs from call to call |

What comes from other crates stands behind functions whose contracts Verus takes as they are. Each of
them says in its comment which function it calls and what is claimed of it.
