# gaji

Runs GitHub Actions workflows that are written in TypeScript or JavaScript, and
collects the documents that they build.

- `src/` is the library. Its functions carry contracts that Verus proves.
  - `typescript` turns TypeScript into JavaScript with the oxc crates.
  - `path` does with paths what can be done without a disk.
  - `resolver` decides where an import leads and keeps the sources of loaded modules.
  - `quickjs` holds the calls into the JavaScript engine.
  - `executor` runs scripts, workflows and configs; `output` and `error` are what
    comes of it.
- `app/` reads files, hooks the resolver into the engine, and drives the library.
- `tests/` runs the library with the real engine and an in-memory disk.

Paths are texts with `/` between their parts. On Windows `app/` spells them so before it
hands them over, and has imports resolved by the rules for drives.

What is trusted rather than proved are the contracts of the functions marked
`external_body`. Each makes one step with an outside crate or `std` and says what comes
back; the three that lend a context to a verified function also make the log that it
fills, and empty it. All but one of them, the quoting of a text in `executor`, stand in
`typescript` and `quickjs`.
