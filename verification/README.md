# lush

A Wayland shell whose bars, panels and widgets are described in Lua. This
crate holds its core as a library verified with Verus, and the program
around it.

## Layout

- `src/` — the library. Every function carries a contract that Verus proves:
  - `lua`, `parser`, `widget`, `fields`, `validator`: the configuration as
    the Lua tables hold it, read into windows and widget trees, with the
    warnings a tree calls for;
  - `bridge`, `commands`: signal values, data providers in use, on-screen
    displays, window visibility, the window command queue and the control
    interface's requests;
  - `notify`: the notifications shown and kept, and the keys they publish;
  - `compositor`, `compositor_data`, `hyprland`, `sway`, `river`, `wlr`,
    `toplevel_list`: workspaces and toplevel windows read from each
    compositor's replies and events, and what is published of them;
  - `provider`, `network`, `battery`, `bluetooth`, `mpris`: the data
    providers' figures and states;
  - `locate`, `selector`, `text`, `order`, `json`, `keyed`, `seqs`,
    `variant`: paths, selectors and the text, ordering and lookup helpers.
- `tests/` — tests of the library on concrete values.
- `app/` — the `lush` program: the command line, the daemon's main loop, the
  Lua state, the D-Bus services and the collectors that read the machine.
