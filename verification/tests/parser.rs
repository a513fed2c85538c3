use cypher_lexer::FlatTokenStream;
use cypher_lexer::RuleResult;
use cypher_lexer::SampleQuotedStrAst;
use cypher_lexer::TokenType;
use cypher_lexer::Tokenizer;
use cypher_lexer::quote_string;

#[test]
fn test_peg() {
    let t = Tokenizer::try_new("\"sample\"").unwrap();
    let a = FlatTokenStream::new(t.tokens().clone());

    let r = quote_string(&a).unwrap();
    println!("r: {:?}", r);
    assert_eq!(r, SampleQuotedStrAst { st_pos: 0, ed_pos: 1 });
}

#[test]
fn match_literal_round_trip() {
    let t = Tokenizer::try_new("\"sample\"").unwrap();
    let a = FlatTokenStream::new(t.tokens().clone());
    assert_eq!(a.parse_string_literal(0, "QuotedString"), RuleResult::Matched(1));
    assert_eq!(a.parse_string_literal(0, "Ident"), RuleResult::Failed);
    assert_eq!(a.parse_string_literal(0, "MATCH"), RuleResult::Failed);
    assert_eq!(a.parse_string_literal(1, "QuotedString"), RuleResult::Failed);
}

#[test]
fn match_literal_by_kind_name_not_text() {
    let t = Tokenizer::try_new("match x").unwrap();
    let a = FlatTokenStream::new(t.tokens().clone());
    // the grammar literal names the kind, whatever the source casing
    assert_eq!(a.parse_string_literal(0, "MATCH"), RuleResult::Matched(1));
    assert_eq!(a.parse_string_literal(0, "match"), RuleResult::Failed);
    assert_eq!(a.parse_string_literal(1, "Ident"), RuleResult::Matched(2));
}

#[test]
fn adapter_positions() {
    let t = Tokenizer::try_new("match x").unwrap();
    let a = FlatTokenStream::new(t.tokens().clone());
    assert_eq!(a.start(), 0);
    assert!(!a.is_eof(0));
    assert!(!a.is_eof(1));
    assert!(a.is_eof(2));
    let p = a.position_repr(1);
    assert_eq!(p.0.start, 6);
    assert_eq!(p.0.end, 7);
    assert_eq!(p.1, 1);
    assert_eq!(a.tokens[1].ty(), TokenType::Ident);
}

#[test]
fn quote_string_needs_single_quoted_token() {
    let t = Tokenizer::try_new("\"a\" \"b\"").unwrap();
    let a = FlatTokenStream::new(t.tokens().clone());
    assert!(quote_string(&a).is_none());
    let t = Tokenizer::try_new("match").unwrap();
    let a = FlatTokenStream::new(t.tokens().clone());
    assert!(quote_string(&a).is_none());
}
