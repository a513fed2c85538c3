//! A lexical analyzer for a Cypher-like graph query language, together with
//! the token-stream adapter that lets a parser-expression-grammar driver
//! consume the tokens as atomic units.
//!
//! The scanner turns one source string into an ordered sequence of classified
//! tokens, each carrying its textual slice (as bytes) and its byte span into
//! the source. Scanning is longest-match with a fixed priority order between
//! overlapping rules; the first unclassifiable byte aborts with a `LexError`.

mod error;
mod keywords;
mod parser;
mod scan;
mod token;
mod token_literal;

pub use error::LexError;
pub use error::Span;
pub use keywords::ascii_upper_chars;
pub use keywords::classify_word_spec;
pub use keywords::is_keyword_kind;
pub use keywords::lemma_keyword_priority;
pub use scan::is_ws_byte;
pub use scan::next_token;
pub use scan::scan_from;
pub use scan::stream_wf;
pub use scan::covered;
pub use scan::scan_result_prepend;
pub use scan::lemma_coverage;
pub use scan::lemma_monotone_spans;
pub use parser::FlatTokenStream;
pub use parser::Pos;
pub use parser::RuleResult;
pub use parser::SampleQuotedStrAst;
pub use parser::literal_matches_at;
pub use parser::lemma_literal_round_trip;
pub use parser::quote_string;
pub use token::SpecToken;
pub use token::Token;
pub use token::Tokenizer;
pub use token::TokenType;
pub use token::token_models;
pub use token_literal::TokenLiteral;
pub use token_literal::token_literal_name;
