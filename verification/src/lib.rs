//! Lume front end: source spans, diagnostics, a lexer, and two
//! recursive-descent parsers over the same token stream.
//!
//! - `parser` reads the dialect with `record` and `object` types, `import`
//!   headers, `unwrap` statements and `then` bodies, into the tree of `ast`.
//! - `syntax` reads the dialect of the language reference (shapes, singles,
//!   `new { ... }` constructors, `use` headers, refutable `let`/`expect`,
//!   `defer`, lifted access `.->` and shape updates `:<`), into
//!   `syntax::tree`.
//!
//! Both parsers always produce a program, report problems as diagnostics,
//! and are proved to terminate and never to read past the end-of-file token.

pub mod ast;
pub mod diagnostic;
pub mod source;
pub mod text;

pub mod lexer;
pub mod parser;
pub mod syntax;
