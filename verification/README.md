# lspyx

Semantic Python navigation from the command line: `find-symbol`, `goto`,
`usages`, `inspect` and `outline`, answered by a language-server daemon.

- `src/` is the verified library.
  - `text.rs`: decimal numbers, debug quoting, line splitting and joining, with
    laws such as "a number's text reads back as the number".
  - `model.rs`: the records that queries answer with, and how paths and symbol
    kinds are named.
  - `render.rs`: the text form of each answer, stated line by line, and laws
    relating summaries, results, limits and symbol selection.
  - `commands.rs`: what each command line asks of the daemon, and the `doctor` report.
- `app/` parses the command line, talks to the environment and the daemon
  through a `Backend`, and prints answers.
- `tests/` runs the library on concrete answers.
