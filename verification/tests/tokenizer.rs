use pbrt4::{Token, Tokenizer};

#[test]
fn token_empty_line() {
    let mut t = Tokenizer::new("");

    assert_eq!(t.next(), None);
    assert_eq!(t.next(), None);
}

#[test]
fn token_single_token() {
    let mut t = Tokenizer::new("Scale");

    assert_eq!(t.next(), Some(Token::new("Scale")));
    assert_eq!(t.next(), None);
}

#[test]
fn token_two_tokens() {
    let mut t = Tokenizer::new("Scale Scale");

    assert_eq!(t.next(), Some(Token::new("Scale")));
    assert_eq!(t.next(), Some(Token::new("Scale")));
    assert_eq!(t.next(), None);
}

#[test]
fn token_skip_newlines() {
    let str = "\n\n\n        ";

    let mut t = Tokenizer::new(str);
    assert_eq!(t.next(), None);
}

#[test]
fn token_brackets() {
    let mut t = Tokenizer::new("[ abc ]");

    assert_eq!(t.next(), Some(Token::new("[")));
    assert_eq!(t.next(), Some(Token::new("abc")));
    assert_eq!(t.next(), Some(Token::new("]")));
    assert_eq!(t.next(), None);
}

#[test]
fn token_comment_start() {
    let str = "\n# Comment\n\nScale\n\n";

    let mut t = Tokenizer::new(str);

    assert_eq!(t.next(), Some(Token::new("# Comment")));
    assert_eq!(t.next(), Some(Token::new("Scale")));
}

#[test]
fn token_comment_middle() {
    let str = "\nScale\n\n# Comment";

    let mut t = Tokenizer::new(str);

    assert_eq!(t.next(), Some(Token::new("Scale")));
    assert_eq!(t.next(), Some(Token::new("# Comment")));

    assert_eq!(t.next(), None);
}

#[test]
fn token_quotes_single() {
    let mut t = Tokenizer::new(" \"test\" ");

    assert_eq!(t.next(), Some(Token::new("\"test\"")));
    assert_eq!(t.next(), None);
}

#[test]
fn token_quotes_two() {
    let mut t = Tokenizer::new(" \"foo\" [] \"bar\" ");

    assert_eq!(t.next(), Some(Token::new("\"foo\"")));

    assert_eq!(t.next(), Some(Token::new("[")));
    assert_eq!(t.next(), Some(Token::new("]")));

    assert_eq!(t.next(), Some(Token::new("\"bar\"")));

    assert_eq!(t.next(), None);
}

#[test]
fn token_single_quote() {
    let mut t = Tokenizer::new("foo \"abc");

    assert_eq!(t.next(), Some(Token::new("foo")));
    assert_eq!(t.next(), Some(Token::new("\"abc")));

    assert_eq!(t.next(), None);
}

#[test]
fn token_single_quote_with_spaces() {
    let mut t = Tokenizer::new("foo \"abc test [] ");

    assert_eq!(t.next(), Some(Token::new("foo")));
    assert_eq!(t.next(), Some(Token::new("\"abc test [] ")));

    assert_eq!(t.next(), None);
}

#[test]
fn token_just_quote() {
    let mut t = Tokenizer::new("\"");

    assert_eq!(t.next(), Some(Token::new("\"")));
    assert_eq!(t.next(), None);
}

#[test]
fn tokenizer_empty_line() {
    let mut t = Tokenizer::new("");

    assert_eq!(t.next(), None);
    assert_eq!(t.next(), None);
}

#[test]
fn tokenizer_single_token() {
    let mut t = Tokenizer::new("Scale");

    assert_eq!(t.next(), Some(Token::new("Scale")));
    assert_eq!(t.next(), None);
}

#[test]
fn tokenizer_two_tokens() {
    let mut t = Tokenizer::new("Scale Scale");

    assert_eq!(t.next(), Some(Token::new("Scale")));
    assert_eq!(t.next(), Some(Token::new("Scale")));
    assert_eq!(t.next(), None);
}

#[test]
fn tokenizer_skip_newlines() {
    let str = "\n\n\n        ";

    let mut t = Tokenizer::new(str);
    assert_eq!(t.next(), None);
}

#[test]
fn tokenizer_brackets() {
    let mut t = Tokenizer::new("[ abc ]");

    assert_eq!(t.next(), Some(Token::new("[")));
    assert_eq!(t.next(), Some(Token::new("abc")));
    assert_eq!(t.next(), Some(Token::new("]")));
    assert_eq!(t.next(), None);
}

#[test]
fn tokenizer_comment_start() {
    let str = "\n# Comment\n\nScale\n\n";

    let mut t = Tokenizer::new(str);

    assert_eq!(t.next(), Some(Token::new("# Comment")));
    assert_eq!(t.next(), Some(Token::new("Scale")));
}

#[test]
fn skip_comments() {
    let str = "\n# Comment\n\nScale\n\n";

    let mut t = Tokenizer::new(str);
    t.skip_comments();

    assert_eq!(t.next(), Some(Token::new("Scale")));
    assert_eq!(t.next(), None);
}

#[test]
fn tokenizer_comment_middle() {
    let str = "\nScale\n\n# Comment";

    let mut t = Tokenizer::new(str);

    assert_eq!(t.next(), Some(Token::new("Scale")));
    assert_eq!(t.next(), Some(Token::new("# Comment")));

    assert_eq!(t.next(), None);
}

#[test]
fn tokenizer_quotes_single() {
    let mut t = Tokenizer::new(" \"test\" ");

    assert_eq!(t.next(), Some(Token::new("\"test\"")));
    assert_eq!(t.next(), None);
}

#[test]
fn tokenizer_quotes_two() {
    let mut t = Tokenizer::new(" \"foo\" [] \"bar\" ");

    assert_eq!(t.next(), Some(Token::new("\"foo\"")));

    assert_eq!(t.next(), Some(Token::new("[")));
    assert_eq!(t.next(), Some(Token::new("]")));

    assert_eq!(t.next(), Some(Token::new("\"bar\"")));

    assert_eq!(t.next(), None);
}

#[test]
fn tokenizer_single_quote() {
    let mut t = Tokenizer::new("foo \"abc");

    assert_eq!(t.next(), Some(Token::new("foo")));
    assert_eq!(t.next(), Some(Token::new("\"abc")));

    assert_eq!(t.next(), None);
}

#[test]
fn tokenizer_single_quote_with_spaces() {
    let mut t = Tokenizer::new("foo \"abc test [] ");

    assert_eq!(t.next(), Some(Token::new("foo")));
    assert_eq!(t.next(), Some(Token::new("\"abc test [] ")));

    assert_eq!(t.next(), None);
}

#[test]
fn tokenizer_just_quote() {
    let mut t = Tokenizer::new("\"");

    assert_eq!(t.next(), Some(Token::new("\"")));
    assert_eq!(t.next(), None);
}

#[test]
fn parse_scale() {
    let mut t = Tokenizer::new("Scale -1 1 1");

    assert_eq!(t.next(), Some(Token::new("Scale")));
    assert_eq!(t.next(), Some(Token::new("-1")));
    assert_eq!(t.next(), Some(Token::new("1")));
    assert_eq!(t.next(), Some(Token::new("1")));

    assert_eq!(t.next(), None);
}

// Tokenizing "A B" yields the tokens "A" and "B"; an empty buffer yields
// none (checked by token_empty_line above).
#[test]
fn two_letter_tokens() {
    let mut t = Tokenizer::new("A B");

    assert_eq!(t.next(), Some(Token::new("A")));
    assert_eq!(t.next(), Some(Token::new("B")));
    assert_eq!(t.next(), None);
}

// A quote at the end of the buffer after other text lexes to one token,
// not a fault.
#[test]
fn trailing_quote() {
    let mut t = Tokenizer::new("x \"");

    assert_eq!(t.next(), Some(Token::new("x")));
    assert_eq!(t.next(), Some(Token::new("\"")));
    assert_eq!(t.next(), None);
}

// With comment skipping enabled, no emitted token begins with '#'.
#[test]
fn skipped_comments_never_emitted() {
    let mut t = Tokenizer::new("# one\nScale # two\n[ ] # three");
    t.skip_comments();

    let mut n = 0;
    while let Some(tok) = t.next() {
        assert!(!tok.value().starts_with('#'));
        n += 1;
    }
    assert_eq!(n, 3);
}
