# uniman

Read the man pages of any operating system on any Unix machine. Backends
(collections of man pages, such as the Linux man-pages project or the BSD
manuals) are cloned or downloaded into `~/.uman/backends`, indexed in an
SQLite database under `~/.uman/index`, and shown with `man` or `mandoc`.

## Layout

- `src/` is the library, written in Verus and verified: the backend registry
  and how names and aliases resolve, the choice of the default backend, the
  commands run to install and update backends, the reading of man page file
  names and descriptions, the planning of index updates, the steps of showing
  a page, and the text of every listing and message.
- `app/` is the program around it: command-line parsing, the configuration
  file, the SQLite index, running `git`, `curl`, `tar`, `man` and `fzf`, and
  the prompts.
- `tests/` runs the library on concrete inputs.
