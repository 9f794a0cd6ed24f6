# lume

The front end of the Lume language, verified with Verus: a lexer and two
recursive-descent parsers.

- `src/source.rs`, `src/diagnostic.rs`, `src/text.rs`: spans, diagnostics and
  the small string helpers the rest is built on.
- `src/lexer.rs`: text to tokens. Proved: every token spells the text it
  covers, carries the line and column of both ends, has the shape of its
  kind (keywords spell their keyword, identifiers spell none, numbers are
  digits, punctuation is spelled as its kind says); identifiers, keywords,
  numbers and punctuation run as far as the text lets them (longest match),
  and a string token ends just past its closing quote (`"""` for a
  triple-quoted one, with `\` escapes skipped outside raw strings), or at
  the line break or the end of the text when it is left open; tokens come in order and end with an
  end-of-file token at the end of the text; every diagnostic points at a
  character that begins no token or at a string left open; and when nothing
  is reported only blanks and `#` comments lie between tokens.
- `src/parser/` with `src/ast.rs`: the dialect with `record`/`object` types,
  `import` headers, `unwrap` statements and `then` bodies.
- `src/syntax/` with `src/syntax/tree.rs`: the dialect of the language
  reference (shapes, singles, `new { ... }` constructors, `use` headers,
  refutable `let`/`expect`, `defer`, lifted access `.->`, shape updates `:<`,
  raw strings).

Beyond that, parts of the grammar's rules are proved of what the parsers
return: no `public` type declarations or type members, method bodies
everywhere but in interfaces, cases only in enums, `public` bindings only of
immutable names, no bare top-level statements in the reference dialect, brace payloads
that never mix construction fields with keyed entries, the shapes of `let`
statements and of patterns. And of a program parsed in the reference dialect
without any diagnostic: enum cases and storage fields come before methods in
every type body, and constructors before methods in every impl block.

What a parse gives back is tied to the tokens in part. The input after the
`module`/`use` (or `import`) header, which ends right after the opening
newlines when the input has no header, is cut into top-level stretches, each
starting after the newlines that follow the one before and the last followed
only by newlines; each stretch gives the next item, of the kind and name its
first tokens announce, or is skipped. A stretch is skipped without a
diagnostic only at an identifier (after at most one `public`/`hidden`) in the
`parser` dialect, where a binding is tried, and in the reference dialect only
in an input holding an `if`, whose condition is parsed on its own and whose
failure reports nothing; any other skipped stretch comes with a diagnostic.
A run of simple declarations (functions `def name() Type {}`, in the
`parser` dialect also `def name() Type = <integer>` as the last one, and type
declarations whose bodies hold only simple fields and methods, with no field
after a method in the reference dialect, and in the `parser` dialect also
`impl Name { ... }` blocks of such methods; in both dialects functions and
methods may take parameters `(name Type, ...)`) parses with no diagnostic into
exactly those items, with those members and parameters; in the `parser` dialect, a record literal
`record { name = <integer>, ... }` keeps its fields in order; in the
reference dialect, brace literals, postfix
chains, `let` forms and patterns of the simple shapes are read into the trees
they spell, and a type body of simple fields (`name Type`) and methods
(`def name(<parameters>) Type {}`) gives those members in order, with one
`invalid_member_order` diagnostic for each field that follows a method.
`render_diagnostic` formats a diagnostic with its source line, exactly.

Both parsers are proved to terminate (including the re-entrant parsing of
string interpolations and of `if` conditions), never to read past the
end-of-file token, to consume input on every successful step, and always to
return a program whose span runs from the first significant token to the last
one, inside the source text. String escaping is proved to round-trip, and
the splitting of interpolated strings into literal text, `$name` and
`${expr}` parts is specified exactly (`interp_parts`, `interp_close`).

The lowering of programs to an intermediate representation is not part of
this crate: it rests on a desugaring pass, the intermediate representation
itself and the core library's definitions, none of which this crate holds.

`app/main.rs` is the command-line tool (`lume tokens <file>`,
`lume parse <file>`); `tests/` holds the tests.
