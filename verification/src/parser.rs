use crate::error::Span;
use crate::token::SpecToken;
use crate::token::Token;
use crate::token::token_models;
use crate::token_literal::TokenLiteral;
use crate::token_literal::token_literal_name;
use vstd::prelude::*;
use vstd::string::StringExecFns;

verus! {

/// A parse position made readable: the byte span of the token at the
/// position, together with the position index itself.
#[derive(Clone, Copy, Debug, PartialEq, Eq, Structural)]
pub struct Pos(pub Span, pub usize);

/// The tri-state outcome of matching one grammar literal: the next position
/// on success, failure otherwise. Failure is an ordinary outcome the grammar
/// driver uses to try alternatives, never an error.
#[derive(Clone, Copy, Debug, PartialEq, Eq, Structural)]
pub enum RuleResult {
    Matched(usize),
    Failed,
}

/// A token stream flattened for a parser-expression-grammar driver: the
/// driver walks it by opaque integer positions and matches grammar literals
/// against the canonical names of the token kinds, never against source
/// text.
pub struct FlatTokenStream {
    pub tokens: Vec<Token>,
}

/// Whether the literal `lit` matches the stream `toks` at position `pos`:
/// the position holds a token whose kind has `lit` as its canonical name.
pub open spec fn literal_matches_at(toks: Seq<SpecToken>, pos: int, lit: Seq<char>) -> bool {
    0 <= pos < toks.len() && lit == token_literal_name(toks[pos].ty)
}

impl FlatTokenStream {
    /// Wrap a token vector.
    pub fn new(tokens: Vec<Token>) -> (r: FlatTokenStream)
        ensures
            r.tokens@ == tokens@,
    {
        FlatTokenStream { tokens }
    }

    /// The starting position.
    pub fn start(&self) -> (r: usize)
        ensures
            r == 0,
    {
        0
    }

    /// Whether `pos` is past the last token.
    pub fn is_eof(&self, pos: usize) -> (r: bool)
        ensures
            r == (pos >= self.tokens@.len()),
    {
        pos >= self.tokens.len()
    }

    /// The readable form of `pos`: the span of the token there, with the
    /// index itself. Callers only ask about positions they have reached, so
    /// the position is in range.
    pub fn position_repr(&self, pos: usize) -> (r: Pos)
        requires
            pos < self.tokens@.len(),
        ensures
            r.0 == self.tokens@[pos as int].span,
            r.1 == pos,
    {
        Pos(self.tokens[pos].span(), pos)
    }

    /// Match one grammar literal at `pos`: succeed, advancing by one,
    /// exactly when the literal is the canonical name of the kind of the
    /// token there; fail on any other literal and past the end of the
    /// stream.
    pub fn parse_string_literal(&self, pos: usize, literal: &str) -> (r: RuleResult)
        ensures
            r == if literal_matches_at(token_models(self.tokens@), pos as int, literal@) {
                RuleResult::Matched((pos + 1) as usize)
            } else {
                RuleResult::Failed
            },
    {
        if pos < self.tokens.len() {
            let name = self.tokens[pos].ty().literal();
            let a = String::from_str(literal);
            let b = String::from_str(name);
            if a == b {
                RuleResult::Matched(pos + 1)
            } else {
                RuleResult::Failed
            }
        } else {
            RuleResult::Failed
        }
    }
}

/// The product of the sample rule: the positions on either side of the
/// matched quoted-string token.
#[derive(Clone, Copy, Debug, PartialEq, Eq, Structural)]
pub struct SampleQuotedStrAst {
    pub st_pos: usize,
    pub ed_pos: usize,
}

/// The sample grammar rule over a flattened stream: one quoted-string token
/// and nothing after it. On success the product holds the positions before
/// and after the token.
pub fn quote_string(stream: &FlatTokenStream) -> (r: Option<SampleQuotedStrAst>)
    ensures
        r == if literal_matches_at(token_models(stream.tokens@), 0, "QuotedString"@)
            && stream.tokens@.len() == 1 {
            Some(SampleQuotedStrAst { st_pos: 0, ed_pos: 1 })
        } else {
            None::<SampleQuotedStrAst>
        },
{
    let s = stream.start();
    match stream.parse_string_literal(s, "QuotedString") {
        RuleResult::Matched(e) => {
            if stream.is_eof(e) {
                Some(SampleQuotedStrAst { st_pos: s, ed_pos: e })
            } else {
                None
            }
        },
        RuleResult::Failed => None,
    }
}

/// Literal-name round trip: on a one-token stream, matching at the start
/// succeeds exactly for the canonical name of that token's kind, and fails
/// for every other literal.
pub proof fn lemma_literal_round_trip(t: SpecToken, lit: Seq<char>)
    ensures
        literal_matches_at(seq![t], 0, lit) <==> lit == token_literal_name(t.ty),
{
}

} // verus!
