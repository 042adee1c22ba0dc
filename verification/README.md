# mini_shell

A small Unix shell. `src/` is the verified library: tokenizing a line,
`~` and `$NAME` expansion, parsing pipelines with `<`, `>` and `&` (with the accepted language stated as a grammar in `grammar.rs`), the
builtins' decisions and output, the program search path, the plan of a
pipeline's processes and descriptors, and the job table. `app/main.rs` is
the interactive program around it: reading lines, the environment, the file
system, and `fork`/`exec`/`wait` through the `nix` crate.
