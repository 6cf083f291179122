# remote_files

A browser for the files of a remote host, and the daemon that serves it, with the logic of both
verified by Verus.

- `src/` is the library. `browser` holds the state of the browser and says what is to be done about
  each thing that happens; `model` is the same as mathematics, with the laws that hold of it. `tree`
  builds the rows, `selection` keeps track of the selected one, `panel` says what is drawn, and
  `drawn` holds the browser together with what its rows keep between drawings.
  `listing` reads what the daemon or a shell command says about a directory. `transfer` runs
  uploads and downloads. `daemon` decides what the daemon does and answers. `message` holds what
  the two say to each other. The other modules are about paths, text, sizes and sorting.
- `tests/` runs the library on concrete values.
- `app/` is the daemon around it: sockets, files, commands. `app/panel/` is a crate of its own, the
  browser's user interface.
