# maiscript

Strings, source positions and the lexer of mAiScript, a language that compiles
to minified AiScript, written in Verus with its behaviour stated in contracts
and proved.

- `src/unicode.rs`: the mathematical model of UTF-16 (decoding, encoding, the
  text a string shows) and the laws that tie them together.
- `src/string/`: code points and ECMAScript strings (sequences of UTF-16 code
  units that need not be well-formed).
- `src/utf16/`: code units classified by kind, and the code points and strings
  built from them.
- `src/syntax/`: positions, ranges, identifier names and the string type of the
  syntax tree.
- `src/char_stream.rs`: a stream of code points over source text that keeps
  track of line and column.
- `src/parser/`: the tokens and the lexer: string, number and identifier
  literals, spaces and comments, and the reading of one token at a time, from a
  char stream or from a peekable stream of code points.
- `app/`: error types with `Display` and `std::error::Error` for programs that
  report syntax errors.
- `tests/`: tests of the library on concrete values.
