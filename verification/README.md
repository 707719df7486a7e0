# solc

The front end and the code generators of a small compiler, verified with Verus.

- `src/lexer` turns source text into tokens; `read_token` is specified by `lex`, a function of
  the input bytes and the position.
- `src/parser` builds the syntax tree (`src/ast`) with a precedence-climbing expression parser;
  `src/parser/ids.rs` states that the nodes of a parsed module carry distinct ids.
- `src/ast/fmt.rs` prints a syntax tree with the `row:col` positions of its nodes.
- `src/mir` holds the mid-level representation, its printer and the pieces used to build it.
- `src/codegen/qbe` is the QBE intermediate language: type layouts and its textual form;
  `src/codegen/c` is a C syntax tree, its textual form and the `cc` command line.
- `src/type_checker` holds name scopes and ids; `src/interner.rs` interns values under ids.
- `app/main.rs` is the command line driver (`solc dump <file> tokens|ast`).
