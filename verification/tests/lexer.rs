use cypher_lexer::Token;
use cypher_lexer::TokenLiteral;
use cypher_lexer::TokenType;
use cypher_lexer::Tokenizer;

fn kinds(tokens: &[Token]) -> Vec<TokenType> {
    tokens.iter().map(|t| t.ty()).collect()
}

#[test]
fn test_tokenize() {
    let cyphers = vec![
        "match (a: Person) return a;",
        "create (a:Person{ id: \"1\", age: 15, name: 'Mike', subject: 'Nxp' });",
    ];

    for stmt in cyphers {
        let t = Tokenizer::try_new(stmt).unwrap();
        println!("\n==== stmt: {} ====\n", t.stmt());
        t.tokens().iter().for_each(|t| {
            println!("{:?}", t);
            println!("ty literal: {}", t.ty().literal());
            println!("--------");
        });
    }
}

#[test]
fn match_statement_kinds() {
    let t = Tokenizer::try_new("match (a: Person) return a;").unwrap();
    assert_eq!(
        kinds(t.tokens()),
        vec![
            TokenType::MATCH,
            TokenType::LParen,
            TokenType::Ident,
            TokenType::Colon,
            TokenType::Ident,
            TokenType::RParen,
            TokenType::RETURN,
            TokenType::Ident,
            TokenType::SemiColon,
        ]
    );
    assert_eq!(t.tokens()[2].text(), &b"a".to_vec());
    assert_eq!(t.tokens()[4].text(), &b"Person".to_vec());
    assert_eq!(t.tokens()[7].text(), &b"a".to_vec());
}

#[test]
fn create_statement_kinds() {
    let t =
        Tokenizer::try_new("create (a:Person{ id: \"1\", age: 15, name: 'Mike', subject: `Nxp` });")
            .unwrap();
    let ks = kinds(t.tokens());
    assert_eq!(
        &ks[..9],
        &[
            TokenType::CREATE,
            TokenType::LParen,
            TokenType::Ident,
            TokenType::Colon,
            TokenType::Ident,
            TokenType::LBrace,
            TokenType::Ident,
            TokenType::Colon,
            TokenType::QuotedString,
        ]
    );
    assert_eq!(t.tokens()[8].text(), &b"\"1\"".to_vec());
    let int_pos = t
        .tokens()
        .iter()
        .position(|t| t.ty() == TokenType::LiteralInteger)
        .unwrap();
    assert_eq!(t.tokens()[int_pos].text(), &b"15".to_vec());
    let tick = t
        .tokens()
        .iter()
        .find(|t| t.text() == &b"`Nxp`".to_vec())
        .unwrap();
    assert_eq!(tick.ty(), TokenType::QuotedString);
}

#[test]
fn quoted_string_token() {
    let t = Tokenizer::try_new("\"sample\"").unwrap();
    assert_eq!(t.tokens().len(), 1);
    assert_eq!(t.tokens()[0].ty(), TokenType::QuotedString);
    assert_eq!(t.tokens()[0].text(), &b"\"sample\"".to_vec());
    assert_eq!(t.tokens()[0].span().start, 0);
    assert_eq!(t.tokens()[0].span().end, 8);
}

#[test]
fn float_token() {
    let t = Tokenizer::try_new("1.5e-3").unwrap();
    assert_eq!(t.tokens().len(), 1);
    assert_eq!(t.tokens()[0].ty(), TokenType::LiteralFloat);
    assert_eq!(t.tokens()[0].text(), &b"1.5e-3".to_vec());
}

#[test]
fn float_and_integer_shapes() {
    let t = Tokenizer::try_new("1. .5 1e5 15 1e").unwrap();
    assert_eq!(
        kinds(t.tokens()),
        vec![
            TokenType::LiteralFloat,
            TokenType::LiteralFloat,
            TokenType::LiteralFloat,
            TokenType::LiteralInteger,
            TokenType::LiteralInteger,
            TokenType::Ident,
        ]
    );
    assert_eq!(t.tokens()[4].text(), &b"1".to_vec());
    assert_eq!(t.tokens()[5].text(), &b"e".to_vec());
}

#[test]
fn keyword_case_insensitive() {
    let t = Tokenizer::try_new("MaTcH").unwrap();
    assert_eq!(kinds(t.tokens()), vec![TokenType::MATCH]);
    let t = Tokenizer::try_new("Match5").unwrap();
    assert_eq!(kinds(t.tokens()), vec![TokenType::Ident]);
}

#[test]
fn lex_error_at_first_bad_byte() {
    let e = Tokenizer::try_new("@").unwrap_err();
    assert_eq!(e.span.start, 0);
    assert_eq!(e.span.end, 1);
    assert_eq!(e.source, "@");
}

#[test]
fn lex_error_cases() {
    let e = Tokenizer::try_new("ab @").unwrap_err();
    assert_eq!(e.span.start, 3);
    assert_eq!(e.span.end, 4);
    let e = Tokenizer::try_new("!").unwrap_err();
    assert_eq!(e.span.start, 0);
    let e = Tokenizer::try_new("\"abc").unwrap_err();
    assert_eq!(e.span.start, 0);
    assert_eq!(e.span.end, 1);
}

#[test]
fn operators_two_byte_priority() {
    let t = Tokenizer::try_new("== = <> != < > <= >= -> <- + - * / % ( ) [ ] { } , . : ;").unwrap();
    assert_eq!(
        kinds(t.tokens()),
        vec![
            TokenType::DoubleEq,
            TokenType::Eq,
            TokenType::NotEq,
            TokenType::NotEq,
            TokenType::Lt,
            TokenType::Gt,
            TokenType::Lte,
            TokenType::Gte,
            TokenType::RArrow,
            TokenType::LArrow,
            TokenType::Plus,
            TokenType::DashMinus,
            TokenType::Multiply,
            TokenType::Divide,
            TokenType::Modulo,
            TokenType::LParen,
            TokenType::RParen,
            TokenType::LBracket,
            TokenType::RBracket,
            TokenType::LBrace,
            TokenType::RBrace,
            TokenType::Comma,
            TokenType::Period,
            TokenType::Colon,
            TokenType::SemiColon,
        ]
    );
}

#[test]
fn doubled_quote_escapes() {
    let t = Tokenizer::try_new("\"a\"\"b\"").unwrap();
    assert_eq!(t.tokens().len(), 1);
    assert_eq!(t.tokens()[0].text(), &b"\"a\"\"b\"".to_vec());
    let t = Tokenizer::try_new("'it''s'").unwrap();
    assert_eq!(t.tokens().len(), 1);
    let t = Tokenizer::try_new("\"a\\\"b\"").unwrap();
    assert_eq!(t.tokens().len(), 1);
}

#[test]
fn slice_fidelity_and_monotone_spans() {
    let stmt = "match (a: Person) return a;";
    let t = Tokenizer::try_new(stmt).unwrap();
    let mut prev_start = None::<usize>;
    for tok in t.tokens() {
        let span = tok.span();
        assert_eq!(&stmt.as_bytes()[span.start..span.end], tok.text().as_slice());
        if let Some(p) = prev_start {
            assert!(p < span.start);
        }
        prev_start = Some(span.start);
        assert!(tok.ty() != TokenType::Error);
        assert!(tok.ty() != TokenType::Whitespace);
    }
}

#[test]
fn empty_and_blank_sources() {
    let t = Tokenizer::try_new("").unwrap();
    assert!(t.tokens().is_empty());
    let t = Tokenizer::try_new(" \t\n\x0c").unwrap();
    assert!(t.tokens().is_empty());
}

#[test]
fn literal_names() {
    assert_eq!(TokenType::MATCH.literal(), "MATCH");
    assert_eq!(TokenType::Ident.literal(), "Ident");
    assert_eq!(TokenType::QuotedString.literal(), "QuotedString");
    assert_eq!(TokenType::LiteralFloat.literal(), "LiteralFloat");
    assert_eq!(TokenType::SemiColon.literal(), "SemiColon");
}

enum MyTest {
    Foo,
    Bar,
}

impl TokenLiteral for MyTest {
    fn literal(&self) -> &'static str {
        match self {
            MyTest::Foo => "Foo",
            MyTest::Bar => "Bar",
        }
    }
}

#[test]
fn test_token_literal() {
    let a = MyTest::Foo;
    let b = MyTest::Bar;
    println!("{}", a.literal());
    println!("{}", b.literal());
}

#[test]
fn tokenize_directly() {
    let toks = Tokenizer::tokenize("a<-b").unwrap();
    assert_eq!(kinds(&toks), vec![TokenType::Ident, TokenType::LArrow, TokenType::Ident]);
    let e = Tokenizer::tokenize("`no close").unwrap_err();
    assert_eq!(e.span.start, 0);
    assert_eq!(e.span.end, 1);
}

#[test]
fn backslash_escapes_inside_quotes() {
    let t = Tokenizer::try_new("'a\\'b'").unwrap();
    assert_eq!(t.tokens().len(), 1);
    assert_eq!(t.tokens()[0].text(), &b"'a\\'b'".to_vec());
    // a backslash cannot escape a newline, so the string never closes
    let e = Tokenizer::try_new("\"a\\\nb\"").unwrap_err();
    assert_eq!(e.span.start, 0);
}

#[test]
fn token_equality_over_kind_and_span() {
    let a = Tokenizer::try_new("match").unwrap();
    let b = Tokenizer::try_new("MATCH").unwrap();
    // same kind and same span, though the texts differ in case
    assert!(a.tokens()[0] == b.tokens()[0]);
    let c = Tokenizer::try_new(" match").unwrap();
    assert!(a.tokens()[0] != c.tokens()[0]);
}
