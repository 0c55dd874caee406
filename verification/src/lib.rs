//! Front end of a natural-language-flavored programming language.
//!
//! Source text made of word-like commands, procedure definitions ("howto")
//! and concept definitions ("whatis") is tokenized and parsed into a
//! statement tree. A companion low-level sublanguage for formal definitions
//! has its own lexer; the two sublanguages embed one another only through
//! verbatim quotation windows (`$$...$$` and `<...>`), never through shared
//! token types.
//!
//! Every layer (character stream, both lexers, the parser) offers `peek` /
//! `next` over a one-slot lookahead cache, and each layer's behaviour is
//! pinned down by a spec-level function over the sequence of characters that
//! the layer has not consumed yet.

mod chars;
pub mod lexer;
pub mod lowlevel;
pub mod parser;
mod scan;
pub mod stream;
