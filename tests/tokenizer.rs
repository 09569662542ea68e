use equation_parser::{leading_match, Tokenizer, TokenizerError};

#[derive(Clone, Copy, Eq, PartialEq, Hash, Debug)]
enum Items {
    OpenBrackets,
    CloseBrackets,
    And,
    Or,
    Not,
    Lala,
    Var,
}

fn items_lexicon() -> Vec<(Items, String)> {
    vec![
        (Items::OpenBrackets, String::from("\\(")),
        (Items::CloseBrackets, String::from("\\)")),
        (Items::And, String::from("and")),
        (Items::Or, String::from("or")),
        (Items::Not, String::from("not")),
        (Items::Lala, String::from("lala")),
        (Items::Var, String::from("[a-z|A-Z][a-z|A-Z|0-9]*")),
    ]
}

#[test]
fn test_good_tokens() {
    let tokens = items_lexicon();
    let white_spaces = vec!["\n", " ", "\t"];
    let tokenizer = Tokenizer::new(tokens, white_spaces).unwrap();
    let text_test = "(lala and row) or lala";

    let tokens = tokenizer.tokenize(text_test).unwrap();

    assert_eq!(tokens[0].0, Items::OpenBrackets);
    assert_eq!(tokens[1].0, Items::Lala);
    assert_eq!(tokens[2].0, Items::And);
    assert_eq!(tokens[3].0, Items::Var);
    assert_eq!(tokens[4].0, Items::CloseBrackets);
    assert_eq!(tokens[5].0, Items::Or);
    assert_eq!(tokens[6].0, Items::Lala);
}

#[test]
fn test_invalid_tokens() {
    let tokens = items_lexicon();
    let white_spaces = vec!["\n", " ", "\t"];
    let tokenizer = Tokenizer::new(tokens, white_spaces).unwrap();
    let text_test = "lala and 43dsdsf p42 2dsds-fegfd";

    assert!(tokenizer.tokenize(text_test).is_err())
}

#[derive(Clone, Copy, Eq, PartialEq, Debug)]
enum Kind {
    Kw,
    Id,
    Ident,
    Plus,
}

#[test]
fn first_declared_pattern_wins() {
    let tokenizer = Tokenizer::new(
        vec![(Kind::Kw, String::from("if")), (Kind::Id, String::from("[a-z]+"))],
        vec![],
    )
    .unwrap();
    assert_eq!(tokenizer.tokenize("if").unwrap(), vec![(Kind::Kw, "if")]);
}

#[test]
fn first_match_not_longest() {
    let tokenizer = Tokenizer::new(
        vec![(Kind::Kw, String::from("if")), (Kind::Id, String::from("[a-z]+"))],
        vec![" "],
    )
    .unwrap();
    assert_eq!(
        tokenizer.tokenize("iffy x").unwrap(),
        vec![(Kind::Kw, "if"), (Kind::Id, "fy"), (Kind::Id, "x")]
    );
}

#[test]
fn whitespace_is_skipped() {
    let tokenizer = Tokenizer::new(
        vec![(Kind::Ident, String::from("[a-z]+")), (Kind::Plus, String::from("\\+"))],
        vec![" ", "\t", "\n"],
    )
    .unwrap();
    assert_eq!(
        tokenizer.tokenize("  a  +  b").unwrap(),
        vec![(Kind::Ident, "a"), (Kind::Plus, "+"), (Kind::Ident, "b")]
    );
    assert_eq!(
        tokenizer.tokenize("a\t+\nb  ").unwrap(),
        vec![(Kind::Ident, "a"), (Kind::Plus, "+"), (Kind::Ident, "b")]
    );
    assert_eq!(tokenizer.tokenize("").unwrap(), vec![]);
    assert_eq!(tokenizer.tokenize(" \t ").unwrap(), vec![]);
}

#[test]
fn tokenize_is_deterministic() {
    let make = || {
        Tokenizer::new(
            vec![(Kind::Ident, String::from("[a-z]+")), (Kind::Plus, String::from("\\+"))],
            vec![" "],
        )
        .unwrap()
    };
    let a = make();
    let b = make();
    let text = "x + yy + z";
    assert_eq!(a.tokenize(text), a.tokenize(text));
    assert_eq!(a.tokenize(text), b.tokenize(text));
}

#[test]
fn no_match_carries_a_short_prefix() {
    let tokenizer =
        Tokenizer::new(vec![(Kind::Ident, String::from("[a-z]+"))], vec![" "]).unwrap();
    assert_eq!(
        tokenizer.tokenize("ab 0123456789xyz"),
        Err(TokenizerError::NoMatchError(String::from("0123456789")))
    );
    assert_eq!(
        tokenizer.tokenize("ab 12"),
        Err(TokenizerError::NoMatchError(String::from("12")))
    );
}

#[test]
fn empty_matches_do_not_count() {
    let tokenizer = Tokenizer::new(
        vec![(Kind::Ident, String::from("[a-z]*")), (Kind::Plus, String::from("\\+"))],
        vec![" *"],
    )
    .unwrap();
    assert_eq!(tokenizer.tokenize("+ a").unwrap(), vec![(Kind::Plus, "+"), (Kind::Ident, "a")]);
    assert_eq!(
        tokenizer.tokenize("9"),
        Err(TokenizerError::NoMatchError(String::from("9")))
    );
}

#[test]
fn patterns_are_anchored() {
    let tokenizer = Tokenizer::new(
        vec![(Kind::Ident, String::from("a|b")), (Kind::Plus, String::from("\\+"))],
        vec![],
    )
    .unwrap();
    assert_eq!(
        tokenizer.tokenize("+b").unwrap(),
        vec![(Kind::Plus, "+"), (Kind::Ident, "b")]
    );
}

#[test]
fn invalid_pattern_is_rejected() {
    let bad = Tokenizer::new(vec![(Kind::Ident, String::from("(a"))], vec![" "]);
    assert_eq!(bad.err(), Some(TokenizerError::PatternCompileError(String::from("(a"))));
    let bad_ws = Tokenizer::new(vec![(Kind::Ident, String::from("a"))], vec!["[ "]);
    assert_eq!(bad_ws.err(), Some(TokenizerError::PatternCompileError(String::from("[ "))));
}

#[test]
fn tokenizer_error_messages() {
    assert_eq!(
        TokenizerError::NoMatchError(String::from("xyz")).message(),
        "No Match Pattern was found xyz"
    );
    assert_eq!(
        TokenizerError::PatternCompileError(String::from("(")).message(),
        "Pattern does not compile ("
    );
}

#[test]
fn only_a_leading_non_empty_match_counts() {
    assert_eq!(leading_match(Some(("", "ab", "c"))), Some(("ab", "c")));
    assert_eq!(leading_match(Some(("x", "ab", "c"))), None);
    assert_eq!(leading_match(Some(("", "", "abc"))), None);
    assert_eq!(leading_match(None), None);
}
