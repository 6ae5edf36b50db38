# Front end of a small compiler, verified with Verus

A lexer cuts source text into tokens (keywords, identifiers, literals,
operators, delimiters, and a final end-of-input token, each with its line and
column); a recursive-descent parser with precedence climbing builds a syntax
tree of `let`, `return` and expression statements from them.

- `src/token.rs`: tokens, their mathematical values, and the spelling tables.
- `src/lexer.rs`: the lexer and its specification (`lex_step`, `lex_all`).
- `src/parser.rs`: the syntax tree, the parser and its specification (`expr_spec`, `program_spec`).
- `src/diagnostic.rs`: errors as values and as text.
- `src/laws.rs`: properties of the whole (precedence, spelling, unambiguity, table agreement).
- `src/text.rs`: character classes and string building.
- `app/main.rs`: a small program that parses a snippet and prints the tree.

A floating-point literal is kept as its source text; its value is what
`str::parse::<f64>` gives for that text.
