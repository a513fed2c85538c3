use crate::error::LexError;
use crate::error::Span;
use vstd::prelude::*;

verus! {

/// The closed set of terminal classes of the query language.
///
/// `Error` is the internal sentinel for an unclassifiable byte and
/// `Whitespace` marks the skipped separator class; neither ever appears in a
/// successfully built token stream. The symbolic operators are case-sensitive
/// fixed strings; the trailing block of variants are the case-insensitive
/// keywords, which outrank `Ident` on words of equal length.
#[derive(Clone, Copy, Debug, PartialEq, Eq, Hash, Structural)]
pub enum TokenType {
    Error,
    Whitespace,
    Ident,
    QuotedString,
    LiteralInteger,
    LiteralFloat,
    DoubleEq,
    Eq,
    NotEq,
    Lt,
    Gt,
    Lte,
    Gte,
    Plus,
    DashMinus,
    Multiply,
    Divide,
    Modulo,
    LParen,
    RParen,
    LBracket,
    RBracket,
    LBrace,
    RBrace,
    Comma,
    Period,
    Colon,
    SemiColon,
    RArrow,
    LArrow,
    ALL,
    ASC,
    ASCENDING,
    BY,
    CREATE,
    DELETE,
    DESC,
    DESCENDING,
    DETACH,
    EXISTS,
    LIMIT,
    MATCH,
    MERGE,
    ON,
    OPTIONAL,
    ORDER,
    REMOVE,
    RETURN,
    SET,
    SKIP,
    WHERE,
    WITH,
    UNION,
    UNWIND,
    AND,
    AS,
    CONTAINS,
    DISTINCT,
    ENDS,
    IN,
    IS,
    NOT,
    OR,
    STARTS,
    XOR,
    FALSE,
    TRUE,
    NULL,
    CONSTRAINT,
    DO,
    FOR,
    REQUIRE,
    UNIQUE,
    CASE,
    WHEN,
    THEN,
    ELSE,
    END,
    MANDATORY,
    SCALAR,
    OF,
    ADD,
    DROP,
}

/// The mathematical image of one token: its class, its text as the bytes it
/// was scanned from, and its half-open byte span `[start, end)` into the
/// source.
pub ghost struct SpecToken {
    pub ty: TokenType,
    pub text: Seq<u8>,
    pub start: int,
    pub end: int,
}

/// One classified token: its class, the bytes of its textual slice, and the
/// byte span the slice was taken from. Produced only by the scanner; the text
/// always equals the source bytes at the span.
#[derive(Clone, Debug)]
pub struct Token {
    pub ty: TokenType,
    pub text: Vec<u8>,
    pub span: Span,
}

impl View for Token {
    type V = SpecToken;

    open spec fn view(&self) -> SpecToken {
        SpecToken {
            ty: self.ty,
            text: self.text@,
            start: self.span.start as int,
            end: self.span.end as int,
        }
    }
}

impl Token {
    /// The token's class.
    pub fn ty(&self) -> (r: TokenType)
        ensures
            r == self.ty,
    {
        self.ty
    }

    /// The bytes of the token's textual slice.
    pub fn text(&self) -> (r: &Vec<u8>)
        ensures
            r@ == self@.text,
    {
        &self.text
    }

    /// The byte span the text was sliced from.
    pub fn span(&self) -> (r: Span)
        ensures
            r == self.span,
    {
        self.span
    }
}

impl PartialEq for Token {
    /// Token equality is over kind and span alone: the text is derivable
    /// from the source at the span, so it carries no further information.
    fn eq(&self, other: &Token) -> (r: bool) {
        self.ty == other.ty && self.span == other.span
    }
}

impl vstd::std_specs::cmp::PartialEqSpecImpl for Token {
    open spec fn obeys_eq_spec() -> bool {
        true
    }

    open spec fn eq_spec(&self, other: &Token) -> bool {
        self.ty == other.ty && self.span == other.span
    }
}

/// The sequence of spec-level tokens under a sequence of tokens.
pub open spec fn token_models(ts: Seq<Token>) -> Seq<SpecToken> {
    Seq::new(ts.len(), |i: int| ts[i]@)
}

} // verus!

use crate::scan::covered;
use crate::scan::is_ws_byte;
use crate::scan::lemma_prepend_assoc;
use crate::scan::lemma_scan_step;
use crate::scan::lemma_stream_covered_push;
use crate::scan::lemma_next_token_advances;
use crate::scan::lemma_next_token_kind;
use crate::scan::lemma_scan_from_ws_skip;
use crate::scan::next_token;
use crate::scan::scan_from;
use crate::scan::scan_result_prepend;
use crate::scan::scan_token;
use crate::scan::scan_ws;
use crate::scan::stream_wf;
use crate::scan::ws_end;
use vstd::slice::slice_subrange;
use vstd::slice::slice_to_vec;
use vstd::string::StrSliceExecFns;
use vstd::string::StringSliceAdditionalSpecFns;
use vstd::string::StringExecFns;
use vstd::utf8::encode_utf8;

verus! {

/// A successfully scanned statement: the source and its token stream, which
/// is immutable once built.
#[derive(Debug)]
pub struct Tokenizer {
    pub stmt: String,
    pub tokens: Vec<Token>,
}

impl Tokenizer {
    /// The stream is exactly the scan of the source: the whole statement of
    /// correctness, including span order, slice fidelity and the partition of
    /// the source into spans and whitespace gaps.
    pub open spec fn wf(self) -> bool {
        &&& scan_from(encode_utf8(self.stmt@), 0) == Ok::<Seq<SpecToken>, int>(
            token_models(self.tokens@),
        )
        &&& stream_wf(
            encode_utf8(self.stmt@),
            token_models(self.tokens@),
            encode_utf8(self.stmt@).len() as int,
        )
    }

    /// The source the stream was scanned from.
    pub fn stmt(&self) -> (r: &String)
        ensures
            r@ == self.stmt@,
    {
        &self.stmt
    }

    /// The tokens, in source order.
    pub fn tokens(&self) -> (r: &Vec<Token>)
        ensures
            r@ == self.tokens@,
    {
        &self.tokens
    }

    /// Scan `stmt` and keep it together with its stream.
    pub fn try_new(stmt: &str) -> (r: Result<Tokenizer, LexError>)
        ensures
            match r {
                Ok(t) => {
                    &&& t.stmt@ == stmt@
                    &&& t.wf()
                },
                Err(e) => {
                    &&& e.source@ == stmt@
                    &&& scan_from(stmt.spec_bytes(), 0) == Err::<Seq<SpecToken>, int>(
                        e.span.start as int,
                    )
                    &&& e.span.end == e.span.start + 1
                    &&& e.span.end <= stmt.spec_bytes().len()
                    &&& !is_ws_byte(stmt.spec_bytes()[e.span.start as int])
                    &&& next_token(stmt.spec_bytes(), e.span.start as int) is None
                },
            },
    {
        match Self::tokenize(stmt) {
            Ok(tokens) => Ok(Tokenizer { stmt: String::from_str(stmt), tokens }),
            Err(e) => Err(e),
        }
    }

    /// Scan `stmt` left to right: skip whitespace, take the winning rule at
    /// each position, and stop at the first byte where no rule matches. On
    /// success the tokens are exactly `scan_from(stmt.spec_bytes(), 0)` and
    /// the stream is well formed over the whole source; on failure the error
    /// names the one-byte span at the offending position.
    #[verifier::rlimit(100)]
    #[verifier::spinoff_prover]
    pub fn tokenize(stmt: &str) -> (r: Result<Vec<Token>, LexError>)
        ensures
            match r {
                Ok(toks) => {
                    &&& scan_from(stmt.spec_bytes(), 0) == Ok::<Seq<SpecToken>, int>(
                        token_models(toks@),
                    )
                    &&& stream_wf(
                        stmt.spec_bytes(),
                        token_models(toks@),
                        stmt.spec_bytes().len() as int,
                    )
                },
                Err(e) => {
                    &&& e.source@ == stmt@
                    &&& scan_from(stmt.spec_bytes(), 0) == Err::<Seq<SpecToken>, int>(
                        e.span.start as int,
                    )
                    &&& e.span.end == e.span.start + 1
                    &&& e.span.end <= stmt.spec_bytes().len()
                    &&& !is_ws_byte(stmt.spec_bytes()[e.span.start as int])
                    &&& next_token(stmt.spec_bytes(), e.span.start as int) is None
                },
            },
    {
        let s: &[u8] = stmt.as_bytes();
        let n = s.len();
        let mut tokens: Vec<Token> = Vec::new();
        let mut pos: usize = scan_ws(s, 0);
        proof {
            reveal(covered);
            assert(forall|b: int| 0 <= b < pos as int ==> covered(s@, token_models(tokens@), b));
        }
        while pos < n
            invariant
                s@ == stmt.spec_bytes(),
                n == s@.len(),
                pos <= n,
                ws_end(s@, pos as int) == pos as int,
                pos < n ==> !is_ws_byte(s@[pos as int]),
                scan_from(s@, 0) == scan_result_prepend(
                    token_models(tokens@),
                    scan_from(s@, pos as int),
                ),
                stream_wf(s@, token_models(tokens@), pos as int),
            decreases n - pos,
        {
            match scan_token(s, pos) {
                Some((ty, e)) => {
                    proof {
                        lemma_next_token_advances(s@, pos as int);
                        lemma_next_token_kind(s@, pos as int);
                    }
                    let text = slice_to_vec(slice_subrange(s, pos, e));
                    let t = Token { ty, text, span: Span { start: pos, end: e } };
                    let ghost old_models = token_models(tokens@);
                    let ghost old_pos = pos as int;
                    tokens.push(t);
                    pos = scan_ws(s, e);
                    proof {
                        let sb = s@;
                        let models = token_models(tokens@);
                        let tm = SpecToken {
                            ty,
                            text: sb.subrange(old_pos, e as int),
                            start: old_pos,
                            end: e as int,
                        };
                        assert(t@ == tm);
                        assert(models =~= old_models.push(tm));
                        lemma_scan_step(sb, old_pos, ty, e as int);
                        lemma_prepend_assoc(old_models, seq![tm], scan_from(sb, pos as int));
                        assert(old_models + seq![tm] =~= models);
                        lemma_stream_covered_push(sb, old_models, tm, old_pos, pos as int);
                    }
                }
                None => {
                    return Err(
                        LexError {
                            source: String::from_str(stmt),
                            span: Span { start: pos, end: pos + 1 },
                        },
                    );
                }
            }
        }
        proof {
            assert(token_models(tokens@) + Seq::<SpecToken>::empty() =~= token_models(tokens@));
        }
        Ok(tokens)
    }
}

} // verus!
