use sdw::lex::LexemeTypes::{AngleLeft, AngleRight, Asterisk, Bang, CloseBrace, CloseParen,
    Comma, Cross, Dash, Equals, FSlash, Idn, Keyword, Literal, OpenBrace, OpenParen, Semicolon};
use sdw::lex::{lex, Keywords, LexemeTypes, Literals};

fn types_of(src: &str) -> Vec<LexemeTypes> {
    lex(src)
        .expect("lexing should succeed")
        .iter()
        .map(|l| l.ty.clone())
        .collect::<Vec<LexemeTypes>>()
}

#[test]
fn fn_dec() {
    let input = "fn int main() {\n    return 4;\n}";
    let lexemes = lex(input);
    assert!(lexemes.is_ok(), "error in the lexer");
    assert_eq!(
        lexemes.unwrap().iter().map(|l| l.ty.clone()).collect::<Vec<LexemeTypes>>(),
        vec![
            Keyword(Keywords::Fn),
            Idn("int".to_string()),
            Idn("main".to_string()),
            OpenParen,
            CloseParen,
            OpenBrace,
            Keyword(Keywords::Return),
            Literal(Literals::Integer(4)),
            Semicolon,
            CloseBrace
        ]
    );
}

#[test]
fn keywords_and_booleans() {
    assert_eq!(
        types_of("if else loop break continue let true false"),
        vec![
            Keyword(Keywords::If),
            Keyword(Keywords::Else),
            Keyword(Keywords::Loop),
            Keyword(Keywords::Break),
            Keyword(Keywords::Continue),
            Keyword(Keywords::Let),
            Literal(Literals::Boolean(true)),
            Literal(Literals::Boolean(false)),
        ]
    );
}

#[test]
fn punctuation_and_operators() {
    assert_eq!(
        types_of("( ) { } ; , = + - / * < > !"),
        vec![
            OpenParen, CloseParen, OpenBrace, CloseBrace, Semicolon, Comma, Equals, Cross,
            Dash, FSlash, Asterisk, AngleLeft, AngleRight, Bang
        ]
    );
}

#[test]
fn identifier_not_special() {
    // a run of letters that is no keyword and no boolean must come out as an
    // identifier: the identifier pattern matches it
    assert_eq!(
        types_of("foo barBaz"),
        vec![Idn("foo".to_string()), Idn("barBaz".to_string())]
    );
}

#[test]
fn unrecognised_character() {
    // '@' holds no letter, so the identifier pattern finds nothing in it
    let r = lex("@");
    assert!(r.is_err());
    let e = r.err().unwrap();
    match e.ty {
        sdw::errors::ErrType::Lex(sdw::errors::LexErrors::UnrecognisedToken(s)) => {
            assert_eq!(s, "@".to_string());
        }
        other => panic!("wrong error: {:?}", other),
    }
    assert_eq!(e.span.line, 0);
    assert_eq!(e.span.column, 0);
}

#[test]
fn oversized_integer_is_rejected() {
    // all digits, too large for an integer, and the identifier pattern finds
    // no letter in it either
    let r = lex("99999999999999999999");
    assert!(r.is_err());
    match r.err().unwrap().ty {
        sdw::errors::ErrType::Lex(sdw::errors::LexErrors::UnrecognisedToken(s)) => {
            assert_eq!(s, "99999999999999999999".to_string());
        }
        other => panic!("wrong error: {:?}", other),
    }
}

#[test]
fn largest_integer_fits() {
    assert_eq!(
        types_of("9223372036854775807"),
        vec![Literal(Literals::Integer(i64::MAX))]
    );
}

#[test]
fn spans_track_lines_and_columns() {
    let lexemes = lex("let x\nreturn").unwrap();
    assert_eq!(lexemes[0].span.line, 0);
    assert_eq!(lexemes[0].span.column, 0);
    assert_eq!(lexemes[0].span.end_col, 3);
    assert_eq!(lexemes[1].span.column, 4);
    assert_eq!(lexemes[2].span.line, 1);
    assert_eq!(lexemes[2].span.column, 0);
}

#[test]
fn error_report_rendering() {
    let source = "@";
    let e = lex(source).err().unwrap();
    let report = e.print(source);
    assert_eq!(
        report,
        "[SDW E/L] unrecognised token encountered: '@'\n\
         -> error occurred at line 1, character 1.\n\
         @\n\
         ^ - error occurred here!\n"
    );
}
