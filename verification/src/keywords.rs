use crate::token::TokenType;
use crate::token_literal::token_literal_name;
use vstd::prelude::*;
use vstd::string::StrSliceExecFns;

verus! {

/// The uppercase image of an ASCII letter byte; any other byte is unchanged.
pub open spec fn upper_byte(b: u8) -> u8 {
    if 'a' as u8 <= b && b <= 'z' as u8 {
        (b - 32) as u8
    } else {
        b
    }
}

/// Uppercase one byte.
#[verifier::when_used_as_spec(upper_byte)]
pub fn upper_byte_x(b: u8) -> (r: u8)
    ensures
        r == upper_byte(b),
{
    if b >= 97 && b <= 122 {
        b - 32
    } else {
        b
    }
}

/// A scanned word's bytes read as characters and uppercased: keyword
/// matching compares this image against the keyword names.
pub open spec fn ascii_upper_chars(w: Seq<u8>) -> Seq<char> {
    Seq::new(w.len(), |i: int| upper_byte(w[i]) as char)
}

/// Whether the characters in `w` are exactly the characters of `s`.
pub fn chars_eq_str(w: &Vec<char>, s: &str) -> (r: bool)
    ensures
        r == (w@ == s@),
{
    let n = s.unicode_len();
    if w.len() != n {
        return false;
    }
    let mut i: usize = 0;
    while i < n
        invariant
            0 <= i <= n,
            n == s@.len(),
            w@.len() == n,
            forall|k: int| 0 <= k < i ==> w@[k] == s@[k],
        decreases n - i,
    {
        if w[i] != s.get_char(i) {
            return false;
        }
        i = i + 1;
    }
    proof {
        assert(w@ =~= s@);
    }
    true
}

/// Classification of a scanned word: its uppercase image is held against each
/// keyword name, in declaration order; a word that matches none is an
/// identifier. Keywords therefore outrank `Ident` on the same text.
#[verifier::opaque]
pub open spec fn classify_word_spec(w: Seq<u8>) -> TokenType {
    let u = ascii_upper_chars(w);
    if u == "ALL"@ {
        TokenType::ALL
    } else if u == "ASC"@ {
        TokenType::ASC
    } else if u == "ASCENDING"@ {
        TokenType::ASCENDING
    } else if u == "BY"@ {
        TokenType::BY
    } else if u == "CREATE"@ {
        TokenType::CREATE
    } else if u == "DELETE"@ {
        TokenType::DELETE
    } else if u == "DESC"@ {
        TokenType::DESC
    } else if u == "DESCENDING"@ {
        TokenType::DESCENDING
    } else if u == "DETACH"@ {
        TokenType::DETACH
    } else if u == "EXISTS"@ {
        TokenType::EXISTS
    } else if u == "LIMIT"@ {
        TokenType::LIMIT
    } else if u == "MATCH"@ {
        TokenType::MATCH
    } else if u == "MERGE"@ {
        TokenType::MERGE
    } else if u == "ON"@ {
        TokenType::ON
    } else if u == "OPTIONAL"@ {
        TokenType::OPTIONAL
    } else if u == "ORDER"@ {
        TokenType::ORDER
    } else if u == "REMOVE"@ {
        TokenType::REMOVE
    } else if u == "RETURN"@ {
        TokenType::RETURN
    } else if u == "SET"@ {
        TokenType::SET
    } else if u == "SKIP"@ {
        TokenType::SKIP
    } else if u == "WHERE"@ {
        TokenType::WHERE
    } else if u == "WITH"@ {
        TokenType::WITH
    } else if u == "UNION"@ {
        TokenType::UNION
    } else if u == "UNWIND"@ {
        TokenType::UNWIND
    } else if u == "AND"@ {
        TokenType::AND
    } else if u == "AS"@ {
        TokenType::AS
    } else if u == "CONTAINS"@ {
        TokenType::CONTAINS
    } else if u == "DISTINCT"@ {
        TokenType::DISTINCT
    } else if u == "ENDS"@ {
        TokenType::ENDS
    } else if u == "IN"@ {
        TokenType::IN
    } else if u == "IS"@ {
        TokenType::IS
    } else if u == "NOT"@ {
        TokenType::NOT
    } else if u == "OR"@ {
        TokenType::OR
    } else if u == "STARTS"@ {
        TokenType::STARTS
    } else if u == "XOR"@ {
        TokenType::XOR
    } else if u == "FALSE"@ {
        TokenType::FALSE
    } else if u == "TRUE"@ {
        TokenType::TRUE
    } else if u == "NULL"@ {
        TokenType::NULL
    } else if u == "CONSTRAINT"@ {
        TokenType::CONSTRAINT
    } else if u == "DO"@ {
        TokenType::DO
    } else if u == "FOR"@ {
        TokenType::FOR
    } else if u == "REQUIRE"@ {
        TokenType::REQUIRE
    } else if u == "UNIQUE"@ {
        TokenType::UNIQUE
    } else if u == "CASE"@ {
        TokenType::CASE
    } else if u == "WHEN"@ {
        TokenType::WHEN
    } else if u == "THEN"@ {
        TokenType::THEN
    } else if u == "ELSE"@ {
        TokenType::ELSE
    } else if u == "END"@ {
        TokenType::END
    } else if u == "MANDATORY"@ {
        TokenType::MANDATORY
    } else if u == "SCALAR"@ {
        TokenType::SCALAR
    } else if u == "OF"@ {
        TokenType::OF
    } else if u == "ADD"@ {
        TokenType::ADD
    } else if u == "DROP"@ {
        TokenType::DROP
    } else {
        TokenType::Ident
    }
}

/// The keyword classes: exactly the variants whose names the word classifier
/// checks.
pub open spec fn is_keyword_kind(ty: TokenType) -> bool {
        ||| ty == TokenType::ALL
        ||| ty == TokenType::ASC
        ||| ty == TokenType::ASCENDING
        ||| ty == TokenType::BY
        ||| ty == TokenType::CREATE
        ||| ty == TokenType::DELETE
        ||| ty == TokenType::DESC
        ||| ty == TokenType::DESCENDING
        ||| ty == TokenType::DETACH
        ||| ty == TokenType::EXISTS
        ||| ty == TokenType::LIMIT
        ||| ty == TokenType::MATCH
        ||| ty == TokenType::MERGE
        ||| ty == TokenType::ON
        ||| ty == TokenType::OPTIONAL
        ||| ty == TokenType::ORDER
        ||| ty == TokenType::REMOVE
        ||| ty == TokenType::RETURN
        ||| ty == TokenType::SET
        ||| ty == TokenType::SKIP
        ||| ty == TokenType::WHERE
        ||| ty == TokenType::WITH
        ||| ty == TokenType::UNION
        ||| ty == TokenType::UNWIND
        ||| ty == TokenType::AND
        ||| ty == TokenType::AS
        ||| ty == TokenType::CONTAINS
        ||| ty == TokenType::DISTINCT
        ||| ty == TokenType::ENDS
        ||| ty == TokenType::IN
        ||| ty == TokenType::IS
        ||| ty == TokenType::NOT
        ||| ty == TokenType::OR
        ||| ty == TokenType::STARTS
        ||| ty == TokenType::XOR
        ||| ty == TokenType::FALSE
        ||| ty == TokenType::TRUE
        ||| ty == TokenType::NULL
        ||| ty == TokenType::CONSTRAINT
        ||| ty == TokenType::DO
        ||| ty == TokenType::FOR
        ||| ty == TokenType::REQUIRE
        ||| ty == TokenType::UNIQUE
        ||| ty == TokenType::CASE
        ||| ty == TokenType::WHEN
        ||| ty == TokenType::THEN
        ||| ty == TokenType::ELSE
        ||| ty == TokenType::END
        ||| ty == TokenType::MANDATORY
        ||| ty == TokenType::SCALAR
        ||| ty == TokenType::OF
        ||| ty == TokenType::ADD
        ||| ty == TokenType::DROP
}

/// Classify a scanned word as a keyword or an identifier.
#[verifier::rlimit(30)]
pub fn classify_word(w: &[u8]) -> (ty: TokenType)
    ensures
        ty == classify_word_spec(w@),
{
    let mut u: Vec<char> = Vec::new();
    let mut i: usize = 0;
    while i < w.len()
        invariant
            0 <= i <= w@.len(),
            u@ =~= ascii_upper_chars(w@).subrange(0, i as int),
        decreases w@.len() - i,
    {
        u.push(upper_byte_x(w[i]) as char);
        proof {
            assert(u@ =~= ascii_upper_chars(w@).subrange(0, i as int + 1));
        }
        i = i + 1;
    }
    proof {
        assert(u@ =~= ascii_upper_chars(w@));
        reveal(classify_word_spec);
    }
    if chars_eq_str(&u, "ALL") {
        TokenType::ALL
    } else if chars_eq_str(&u, "ASC") {
        TokenType::ASC
    } else if chars_eq_str(&u, "ASCENDING") {
        TokenType::ASCENDING
    } else if chars_eq_str(&u, "BY") {
        TokenType::BY
    } else if chars_eq_str(&u, "CREATE") {
        TokenType::CREATE
    } else if chars_eq_str(&u, "DELETE") {
        TokenType::DELETE
    } else if chars_eq_str(&u, "DESC") {
        TokenType::DESC
    } else if chars_eq_str(&u, "DESCENDING") {
        TokenType::DESCENDING
    } else if chars_eq_str(&u, "DETACH") {
        TokenType::DETACH
    } else if chars_eq_str(&u, "EXISTS") {
        TokenType::EXISTS
    } else if chars_eq_str(&u, "LIMIT") {
        TokenType::LIMIT
    } else if chars_eq_str(&u, "MATCH") {
        TokenType::MATCH
    } else if chars_eq_str(&u, "MERGE") {
        TokenType::MERGE
    } else if chars_eq_str(&u, "ON") {
        TokenType::ON
    } else if chars_eq_str(&u, "OPTIONAL") {
        TokenType::OPTIONAL
    } else if chars_eq_str(&u, "ORDER") {
        TokenType::ORDER
    } else if chars_eq_str(&u, "REMOVE") {
        TokenType::REMOVE
    } else if chars_eq_str(&u, "RETURN") {
        TokenType::RETURN
    } else if chars_eq_str(&u, "SET") {
        TokenType::SET
    } else if chars_eq_str(&u, "SKIP") {
        TokenType::SKIP
    } else if chars_eq_str(&u, "WHERE") {
        TokenType::WHERE
    } else if chars_eq_str(&u, "WITH") {
        TokenType::WITH
    } else if chars_eq_str(&u, "UNION") {
        TokenType::UNION
    } else if chars_eq_str(&u, "UNWIND") {
        TokenType::UNWIND
    } else if chars_eq_str(&u, "AND") {
        TokenType::AND
    } else if chars_eq_str(&u, "AS") {
        TokenType::AS
    } else if chars_eq_str(&u, "CONTAINS") {
        TokenType::CONTAINS
    } else if chars_eq_str(&u, "DISTINCT") {
        TokenType::DISTINCT
    } else if chars_eq_str(&u, "ENDS") {
        TokenType::ENDS
    } else if chars_eq_str(&u, "IN") {
        TokenType::IN
    } else if chars_eq_str(&u, "IS") {
        TokenType::IS
    } else if chars_eq_str(&u, "NOT") {
        TokenType::NOT
    } else if chars_eq_str(&u, "OR") {
        TokenType::OR
    } else if chars_eq_str(&u, "STARTS") {
        TokenType::STARTS
    } else if chars_eq_str(&u, "XOR") {
        TokenType::XOR
    } else if chars_eq_str(&u, "FALSE") {
        TokenType::FALSE
    } else if chars_eq_str(&u, "TRUE") {
        TokenType::TRUE
    } else if chars_eq_str(&u, "NULL") {
        TokenType::NULL
    } else if chars_eq_str(&u, "CONSTRAINT") {
        TokenType::CONSTRAINT
    } else if chars_eq_str(&u, "DO") {
        TokenType::DO
    } else if chars_eq_str(&u, "FOR") {
        TokenType::FOR
    } else if chars_eq_str(&u, "REQUIRE") {
        TokenType::REQUIRE
    } else if chars_eq_str(&u, "UNIQUE") {
        TokenType::UNIQUE
    } else if chars_eq_str(&u, "CASE") {
        TokenType::CASE
    } else if chars_eq_str(&u, "WHEN") {
        TokenType::WHEN
    } else if chars_eq_str(&u, "THEN") {
        TokenType::THEN
    } else if chars_eq_str(&u, "ELSE") {
        TokenType::ELSE
    } else if chars_eq_str(&u, "END") {
        TokenType::END
    } else if chars_eq_str(&u, "MANDATORY") {
        TokenType::MANDATORY
    } else if chars_eq_str(&u, "SCALAR") {
        TokenType::SCALAR
    } else if chars_eq_str(&u, "OF") {
        TokenType::OF
    } else if chars_eq_str(&u, "ADD") {
        TokenType::ADD
    } else if chars_eq_str(&u, "DROP") {
        TokenType::DROP
    } else {
        TokenType::Ident
    }
}

/// Keyword priority over identifiers: a word whose uppercase image is the
/// name of some keyword class is never classified as `Ident`; it is
/// classified as a keyword class whose name it matches.
#[verifier::rlimit(60)]
pub proof fn lemma_keyword_priority(w: Seq<u8>, k: TokenType)
    requires
        is_keyword_kind(k),
        ascii_upper_chars(w) == token_literal_name(k),
    ensures
        classify_word_spec(w) != TokenType::Ident,
        is_keyword_kind(classify_word_spec(w)),
        token_literal_name(classify_word_spec(w)) == ascii_upper_chars(w),
{
    reveal(classify_word_spec);
}

/// The classifier yields a keyword class or `Ident`, never one of the
/// internal classes.
pub proof fn lemma_classify_no_internal(w: Seq<u8>)
    ensures
        classify_word_spec(w) == TokenType::Ident || is_keyword_kind(classify_word_spec(w)),
        classify_word_spec(w) != TokenType::Error,
        classify_word_spec(w) != TokenType::Whitespace,
{
    reveal(classify_word_spec);
}


} // verus!
