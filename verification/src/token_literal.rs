use crate::token::TokenType;
use vstd::prelude::*;

verus! {

/// The canonical literal name of each token class: the exact identifier the
/// class is declared under. Grammar rules refer to token classes by these
/// names, never by source text.
pub open spec fn token_literal_name(ty: TokenType) -> Seq<char> {
    match ty {
            TokenType::Error => "Error"@,
            TokenType::Whitespace => "Whitespace"@,
            TokenType::Ident => "Ident"@,
            TokenType::QuotedString => "QuotedString"@,
            TokenType::LiteralInteger => "LiteralInteger"@,
            TokenType::LiteralFloat => "LiteralFloat"@,
            TokenType::DoubleEq => "DoubleEq"@,
            TokenType::Eq => "Eq"@,
            TokenType::NotEq => "NotEq"@,
            TokenType::Lt => "Lt"@,
            TokenType::Gt => "Gt"@,
            TokenType::Lte => "Lte"@,
            TokenType::Gte => "Gte"@,
            TokenType::Plus => "Plus"@,
            TokenType::DashMinus => "DashMinus"@,
            TokenType::Multiply => "Multiply"@,
            TokenType::Divide => "Divide"@,
            TokenType::Modulo => "Modulo"@,
            TokenType::LParen => "LParen"@,
            TokenType::RParen => "RParen"@,
            TokenType::LBracket => "LBracket"@,
            TokenType::RBracket => "RBracket"@,
            TokenType::LBrace => "LBrace"@,
            TokenType::RBrace => "RBrace"@,
            TokenType::Comma => "Comma"@,
            TokenType::Period => "Period"@,
            TokenType::Colon => "Colon"@,
            TokenType::SemiColon => "SemiColon"@,
            TokenType::RArrow => "RArrow"@,
            TokenType::LArrow => "LArrow"@,
            TokenType::ALL => "ALL"@,
            TokenType::ASC => "ASC"@,
            TokenType::ASCENDING => "ASCENDING"@,
            TokenType::BY => "BY"@,
            TokenType::CREATE => "CREATE"@,
            TokenType::DELETE => "DELETE"@,
            TokenType::DESC => "DESC"@,
            TokenType::DESCENDING => "DESCENDING"@,
            TokenType::DETACH => "DETACH"@,
            TokenType::EXISTS => "EXISTS"@,
            TokenType::LIMIT => "LIMIT"@,
            TokenType::MATCH => "MATCH"@,
            TokenType::MERGE => "MERGE"@,
            TokenType::ON => "ON"@,
            TokenType::OPTIONAL => "OPTIONAL"@,
            TokenType::ORDER => "ORDER"@,
            TokenType::REMOVE => "REMOVE"@,
            TokenType::RETURN => "RETURN"@,
            TokenType::SET => "SET"@,
            TokenType::SKIP => "SKIP"@,
            TokenType::WHERE => "WHERE"@,
            TokenType::WITH => "WITH"@,
            TokenType::UNION => "UNION"@,
            TokenType::UNWIND => "UNWIND"@,
            TokenType::AND => "AND"@,
            TokenType::AS => "AS"@,
            TokenType::CONTAINS => "CONTAINS"@,
            TokenType::DISTINCT => "DISTINCT"@,
            TokenType::ENDS => "ENDS"@,
            TokenType::IN => "IN"@,
            TokenType::IS => "IS"@,
            TokenType::NOT => "NOT"@,
            TokenType::OR => "OR"@,
            TokenType::STARTS => "STARTS"@,
            TokenType::XOR => "XOR"@,
            TokenType::FALSE => "FALSE"@,
            TokenType::TRUE => "TRUE"@,
            TokenType::NULL => "NULL"@,
            TokenType::CONSTRAINT => "CONSTRAINT"@,
            TokenType::DO => "DO"@,
            TokenType::FOR => "FOR"@,
            TokenType::REQUIRE => "REQUIRE"@,
            TokenType::UNIQUE => "UNIQUE"@,
            TokenType::CASE => "CASE"@,
            TokenType::WHEN => "WHEN"@,
            TokenType::THEN => "THEN"@,
            TokenType::ELSE => "ELSE"@,
            TokenType::END => "END"@,
            TokenType::MANDATORY => "MANDATORY"@,
            TokenType::SCALAR => "SCALAR"@,
            TokenType::OF => "OF"@,
            TokenType::ADD => "ADD"@,
            TokenType::DROP => "DROP"@,
    }
}

/// A variant-to-name mapping: every value of an implementing type carries a
/// stable textual label.
pub trait TokenLiteral {
    /// The label of `self`, as specification-level text. Implementations
    /// override this; the default stands for implementations outside the
    /// proof's reach, of which nothing is claimed.
    open spec fn spec_literal(&self) -> Seq<char> {
        Seq::empty()
    }

    /// The label of `self`.
    fn literal(&self) -> (r: &'static str)
        ensures
            r@ == self.spec_literal(),
    ;
}

impl TokenLiteral for TokenType {
    open spec fn spec_literal(&self) -> Seq<char> {
        token_literal_name(*self)
    }

    fn literal(&self) -> (r: &'static str) {
        match *self {
            TokenType::Error => "Error",
            TokenType::Whitespace => "Whitespace",
            TokenType::Ident => "Ident",
            TokenType::QuotedString => "QuotedString",
            TokenType::LiteralInteger => "LiteralInteger",
            TokenType::LiteralFloat => "LiteralFloat",
            TokenType::DoubleEq => "DoubleEq",
            TokenType::Eq => "Eq",
            TokenType::NotEq => "NotEq",
            TokenType::Lt => "Lt",
            TokenType::Gt => "Gt",
            TokenType::Lte => "Lte",
            TokenType::Gte => "Gte",
            TokenType::Plus => "Plus",
            TokenType::DashMinus => "DashMinus",
            TokenType::Multiply => "Multiply",
            TokenType::Divide => "Divide",
            TokenType::Modulo => "Modulo",
            TokenType::LParen => "LParen",
            TokenType::RParen => "RParen",
            TokenType::LBracket => "LBracket",
            TokenType::RBracket => "RBracket",
            TokenType::LBrace => "LBrace",
            TokenType::RBrace => "RBrace",
            TokenType::Comma => "Comma",
            TokenType::Period => "Period",
            TokenType::Colon => "Colon",
            TokenType::SemiColon => "SemiColon",
            TokenType::RArrow => "RArrow",
            TokenType::LArrow => "LArrow",
            TokenType::ALL => "ALL",
            TokenType::ASC => "ASC",
            TokenType::ASCENDING => "ASCENDING",
            TokenType::BY => "BY",
            TokenType::CREATE => "CREATE",
            TokenType::DELETE => "DELETE",
            TokenType::DESC => "DESC",
            TokenType::DESCENDING => "DESCENDING",
            TokenType::DETACH => "DETACH",
            TokenType::EXISTS => "EXISTS",
            TokenType::LIMIT => "LIMIT",
            TokenType::MATCH => "MATCH",
            TokenType::MERGE => "MERGE",
            TokenType::ON => "ON",
            TokenType::OPTIONAL => "OPTIONAL",
            TokenType::ORDER => "ORDER",
            TokenType::REMOVE => "REMOVE",
            TokenType::RETURN => "RETURN",
            TokenType::SET => "SET",
            TokenType::SKIP => "SKIP",
            TokenType::WHERE => "WHERE",
            TokenType::WITH => "WITH",
            TokenType::UNION => "UNION",
            TokenType::UNWIND => "UNWIND",
            TokenType::AND => "AND",
            TokenType::AS => "AS",
            TokenType::CONTAINS => "CONTAINS",
            TokenType::DISTINCT => "DISTINCT",
            TokenType::ENDS => "ENDS",
            TokenType::IN => "IN",
            TokenType::IS => "IS",
            TokenType::NOT => "NOT",
            TokenType::OR => "OR",
            TokenType::STARTS => "STARTS",
            TokenType::XOR => "XOR",
            TokenType::FALSE => "FALSE",
            TokenType::TRUE => "TRUE",
            TokenType::NULL => "NULL",
            TokenType::CONSTRAINT => "CONSTRAINT",
            TokenType::DO => "DO",
            TokenType::FOR => "FOR",
            TokenType::REQUIRE => "REQUIRE",
            TokenType::UNIQUE => "UNIQUE",
            TokenType::CASE => "CASE",
            TokenType::WHEN => "WHEN",
            TokenType::THEN => "THEN",
            TokenType::ELSE => "ELSE",
            TokenType::END => "END",
            TokenType::MANDATORY => "MANDATORY",
            TokenType::SCALAR => "SCALAR",
            TokenType::OF => "OF",
            TokenType::ADD => "ADD",
            TokenType::DROP => "DROP",
        }
    }
}

} // verus!
