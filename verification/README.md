# gumc

The compiler of gum, a smart-contract language: from a `.gum` source to Yul and its ABI.

- `src/indent.rs` turns colons and indents into braces.
- `src/parser/` holds the grammar, matches a text against it and builds the syntax tree of
  `src/ast.rs`. Several syntax errors are found in one pass.
- `src/semantic/` resolves imports, flattens inheritance, types expressions and verifies
  every function body.
- `src/codegen/` lays out storage and memory, works out mutability and the ABI, moves `try`
  blocks into frames of their own, and writes the Yul of each contract.
- `src/runner.rs` decides what the test runner does with calls and reverts, `src/driver.rs`
  what the command line prints.
- `src/stdlib.rs` is the standard library that is built in.

Every function of `src/` states what it returns, over the mathematical views of the syntax
tree, and Verus proves it. What spans several functions is stated in the proof functions
named `law_*`. `app/` reads and writes files, runs `solc` and the in-process EVM.
