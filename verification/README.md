# oxidized

A modal (Vim-like) terminal text editor whose core is verified with Verus.

- `src/` is the verified library: buffers with undo/redo (`engine`), text objects,
  search, keymaps and key sequences (`keymap`), the actions keys run (`actions`), the
  command line (`commands`), settings (`config`), themes and colors, syntax
  highlighting (`syntax`: the text is parsed with tree-sitter, its tree rebuilt from
  the parser's node list and colored), the editor state (`editor`), events, and
  drawing the screen as a list of steps (`ui`). Laws that relate operations stand as
  public proof functions whose names begin with `law_`.
- `app/` is the program around it: reading and writing files, the terminal, and the
  main loop.
- `tests/` runs the library on concrete inputs.
