# il2cpp_core

A verified library for inspecting Unity IL2CPP builds: it reads the header of
`global-metadata.dat` versions 29 and 31, the full tables of version 31, and ELF64
executables, finds the native registration structures, maps managed
methods to native addresses, resolves runtime type records, and holds the state behind a
browsing front end (search, tabs, history, recent projects, the namespace tree). The
library's own functions are checked by Verus against their contracts. A few small wrappers
around calls into `std` and the `object` crate are trusted rather than proved (they are
marked `#[verifier::external_body]`), and their contracts state only what those libraries
document.

Layout:

- `src/metadata` — header, record tables and strings of the metadata file, parsed into the
  model of `src/model`.
- `src/binary` — the executable image: segments, sections, address translation, relative
  relocations; the ELF container itself is read with the `object` crate.
- `src/registration` — discovery of the code and metadata registrations and of the code
  generation modules, method-to-address resolution and the address index.
- `src/analysis` — the loaded project and the runtime type resolver.
- `src/cli.rs` — names, lookups, address reports and the choice of a disassembly window
  behind the command line.
- `src/desktop` — search, navigation history, tabs, recent projects, selection and the
  namespace tree.
- `app/` — the `il2cpp-explorer` command line: arguments, files and printing, and the
  storage of the recent-projects list in the user's configuration directory.
- `tests/` — tests on concrete inputs.
