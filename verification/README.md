# trabalho_final

A front end for the ConvCC-2025-1 language, written in Verus: every function
of the library carries a contract and is verified, except three small
wrappers of std calls (`String::push`, `char::is_alphabetic` and the `{:?}`
text of a string), whose contracts are trusted.

- `fda`, `lexer`: the deterministic automaton read from its byte and table
  data, and lexical analysis (token list and identifier table).
- `non_terminals`, `syntax`, `grammar_text`: the LL(1) grammar read from its
  rules and parse-table texts, the parse tree built from a token list, and
  its DOT rendering.
- `scope_stack`, `semantic*`, `expression*`: the scope stack and its log,
  semantic analysis of a semantic tree, expression trees and DOT renderings.
- `split`, `text`, `const_type`, `token*`, `cfg`, `code_attrs`: text
  utilities, token values and kinds, and code-generation attributes.

`app/main.rs` is the command-line driver: it reads the program and, at run
time, the automaton and grammar data files, runs the lexical and syntax
analyses and writes their results (token list, identifier table and parse
tree). Semantic analysis, expression trees and the scope log are library
functions on a semantic tree; the driver does not build one, as the library
has no conversion from a parse tree to a semantic tree.
