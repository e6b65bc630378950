# vs2008_parser

Reads Visual Studio 2008 solutions (`.sln`) and C++ projects (`.vcproj`),
turns their configurations into compiler, librarian and linker command lines,
follows each source's `#include` graph for header dependencies, and writes a
ninja build graph or a clang compilation database for a project and the
projects it depends on.

The library in `src/` is verified with Verus: every public function states
what it returns in terms of spec functions over sequences, sets and maps.

- `sln_text`, `sln`: the solution grammar, its model, and the dependency
  order of projects.
- `xml`, `vcproj_xml`, `vcproj`, `values`: the project file, read from the
  nodes of an XML document into the project model.
- `tool_cl`, `tool_lib`, `tool_linker`, `env`, `flags`: the tool settings of a
  configuration, `$(Macro)` expansion, and the command lines they give.
- `pptext`, `cexpr`, `macro_table`, `scan`: the preprocessor subset that finds
  header dependencies; the scan is a state machine whose caller answers its
  file reads and probes.
- `winpath`, `paths`: Windows path arithmetic and the Wine path mapping.
- `ninja`, `generate`, `compdb`, `cache`: the build graph, the glue between
  projects, the compilation database and the decisions of the header cache.

`app/` holds the command-line program: argument parsing, file and directory
I/O, the SQLite cache and the loop that drives the scanner.
