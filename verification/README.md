# imgvwr

A minimal image viewer for Wayland. The viewer's logic is a Verus library
whose functions carry contracts proved by Verus; the program around it
(command line, configuration files, the Wayland window, image decoding and
the event loop) is ordinary Rust.

## Layout

- `src/` — the verified library:
  - `config` — configuration layers, their defaults, the key-by-key merge
    and the layering of system, user and command-line files;
  - `settings` — resolving every setting from command line, configuration
    and built-in defaults, and building the key bindings;
  - `keybinds` — key names to keysyms (through the lookup the program
    passes in, xkbcommon's `keysym_from_name`), and the keysym-to-action map;
  - `navigator` — the sorted list of images of a directory and the
    wrap-around cursor over it;
  - `paths` — the path components navigation looks at, and the file-name
    order;
  - `renderer` — resize, quarter-turn rotation and the centred blit into an
    ARGB8888 window buffer;
  - `viewport` — rotation in quarter turns;
  - `events` — what each key and event does, and what a frame does after
    them;
  - `window` — globals to bind, configured size, and frame layout in
    shared memory;
  - `logging`, `completions`, `text` — small helpers.
- `tests/` — tests of the library on concrete values.
- `app/` — the `imgvwr` program: clap command line, TOML files, xkbcommon
  key names, image decoding, floating-point zoom and pan, Wayland plumbing
  and the event loop.

## Scope

The default build is covered (PNG decoding, logging, configuration files,
configurable key bindings), together with shell completions and the window
title. The optional formats (JPEG, WebP, AVIF, JPEG XL, GIF and
animations), GPU rendering (Vulkan, OpenGL ES, DMA-BUF) and the request
for server-side decorations are not part of this crate. Paths are held as UTF-8 text; directory entries whose names
are not valid UTF-8 are skipped with a warning.
