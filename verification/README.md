# gofile-dl

Download every file of a public Gofile folder share from the terminal.

- `src/` is the library, verified with Verus: the identifiers in links (`share`), the tree of a
  share and its list of downloads (`content`, `listing`), local names and paths (`names`,
  `paths`), the settings of the HTTP client (`client`), the scrape script and the programs it
  needs (`scrape`, `programs`), the download of a file (`download`), the course of a run
  (`session`, `status`), and the text and numbers under all of them (`text`, `units`).
- `app/` is the program: the command line, files, processes and the network.
- `tests/` runs the library.

The library does no input or output. Reading a share and downloading a file are state machines
that say what is to be done next and are told what became of it; the program does it.

Paths in the library are text with `/` between components. Where the paths of the system follow
other rules, the program asks the system for the directory of the scrape script and shows the paths
of the files with its separators.
