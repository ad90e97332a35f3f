# next

A library that scaffolds Next.js App-Router API handler files, with its
behaviour stated in contracts and proved by Verus, and a thin command-line
program around it.

- `src/` — the verified library: the command types and their resolution into
  a request (`cli`), resource-name validation and method normalisation
  (`domain`), the embedded templates and their rendering (`templates`,
  `generation`), the file-system abstraction with an in-memory
  implementation (`io`), the all-or-nothing run as a state machine (`run`),
  the command entry points and summary text (`command`), and the words of a
  self-update (`update`).
- `app/` — the program: argument parsing with clap (`next api create ...`
  and `next --update`), the real file system that drives the run machine,
  error messages, and the self-update download.
- `tests/` — tests of the library against the in-memory file system.
