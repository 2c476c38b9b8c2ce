use tokenizer::ident::IdentTable;
use tokenizer::punct::Punct;
use tokenizer::token::{LexError, Token, TokenKind, IS_AT_BOL, LF_AFTER, WS_BEFORE};
use tokenizer::tokenizer::Tokenizer;

fn lex(s: &str) -> (Vec<Token>, IdentTable) {
    let mut t = Tokenizer::new_from_string(s.to_string(), IdentTable::new());
    let toks = t.tokenize().expect("input should tokenize");
    (toks, t.into_idents())
}

fn lex_err(s: &str) -> LexError {
    let mut t = Tokenizer::new_from_string(s.to_string(), IdentTable::new());
    match t.tokenize() {
        Ok(_) => panic!("expected an error for {:?}", s),
        Err(e) => e,
    }
}

fn kinds(toks: &[Token]) -> Vec<TokenKind> {
    toks.iter().map(|t| t.kind).collect()
}

fn texts(toks: &[Token]) -> Vec<Vec<u8>> {
    toks.iter().map(|t| t.text.clone()).collect()
}

#[test]
fn letters_only_is_one_identifier() {
    let (toks, idents) = lex("abcXYZ");
    assert_eq!(kinds(&toks), vec![TokenKind::Ident, TokenKind::Eof]);
    assert_eq!(toks[0].text, b"abcXYZ".to_vec());
    assert_eq!(toks[0].flags, 0);
    assert_eq!(idents.len(), 1);
    assert_eq!(idents.name(0).clone(), b"abcXYZ".to_vec());
}

#[test]
fn one_identifier_per_maximal_run() {
    let (toks, _) = lex("foo bar1 baz");
    assert_eq!(kinds(&toks), vec![TokenKind::Ident, TokenKind::Ident, TokenKind::Ident, TokenKind::Eof]);
    assert_eq!(texts(&toks)[..3].to_vec(), vec![b"foo".to_vec(), b"bar1".to_vec(), b"baz".to_vec()]);
}

#[test]
fn same_name_shares_one_identifier() {
    let (toks, idents) = lex("i = i + j; i");
    let ids: Vec<Option<usize>> = toks.iter().filter(|t| t.kind == TokenKind::Ident).map(|t| t.ident).collect();
    assert_eq!(ids.len(), 4);
    assert_eq!(ids[0], ids[1]);
    assert_eq!(ids[0], ids[3]);
    assert_ne!(ids[0], ids[2]);
    assert_eq!(idents.len(), 2);
    assert_eq!(idents.name(ids[0].unwrap()).clone(), b"i".to_vec());
    assert_eq!(idents.name(ids[2].unwrap()).clone(), b"j".to_vec());
}

#[test]
fn prefilled_table_is_reused() {
    let mut table = IdentTable::new();
    let int_id = table.get_or_create(b"int");
    assert_eq!(table.get_or_create(b"int"), int_id);
    let mut t = Tokenizer::new_from_string("int x".to_string(), table);
    let toks = t.tokenize().unwrap();
    assert_eq!(toks[0].ident, Some(int_id));
    assert_eq!(toks[1].ident, Some(1));
    assert_eq!(t.idents().len(), 2);
    assert_eq!(t.idents().find(b"x"), Some(1));
    assert_eq!(t.idents().find(b"y"), None);
}

#[test]
fn longest_match_takes_three_bytes() {
    let (toks, _) = lex("<<=x");
    assert_eq!(
        kinds(&toks),
        vec![TokenKind::Punct(Punct::ShlAssign), TokenKind::Ident, TokenKind::Eof]
    );
    assert_eq!(toks[0].text, b"<<=".to_vec());
    assert_eq!(toks[1].text, b"x".to_vec());
}

#[test]
fn shorter_prefixes_when_longer_is_absent() {
    let (toks, _) = lex("<<x<y>>>=z");
    assert_eq!(
        kinds(&toks),
        vec![
            TokenKind::Punct(Punct::Shl),
            TokenKind::Ident,
            TokenKind::Punct(Punct::Lt),
            TokenKind::Ident,
            TokenKind::Punct(Punct::UshrAssign),
            TokenKind::Ident,
            TokenKind::Eof,
        ]
    );
}

#[test]
fn two_spaces_then_line_feed() {
    let (toks, _) = lex("a  b\n");
    assert_eq!(kinds(&toks), vec![TokenKind::Ident, TokenKind::Ident, TokenKind::Eof]);
    let a = &toks[0];
    let b = &toks[1];
    assert!(a.has_flag(IS_AT_BOL));
    assert!(a.has_flag(WS_BEFORE));
    assert!(!a.has_flag(LF_AFTER));
    assert!(b.has_flag(WS_BEFORE));
    assert!(b.has_flag(LF_AFTER));
    assert!(!b.has_flag(IS_AT_BOL));
    assert_eq!(a.flags, IS_AT_BOL | WS_BEFORE);
    assert_eq!(b.flags, WS_BEFORE | LF_AFTER);
}

#[test]
fn blank_line_leaves_no_artifact() {
    let (toks, _) = lex("a\n\nb\n");
    assert_eq!(kinds(&toks), vec![TokenKind::Ident, TokenKind::Ident, TokenKind::Eof]);
    assert!(toks[0].has_flag(IS_AT_BOL));
    assert!(toks[0].has_flag(LF_AFTER));
    assert_eq!(toks[1].flags, IS_AT_BOL | WS_BEFORE | LF_AFTER);
    assert_eq!(toks[0].loc.line, 1);
    assert_eq!(toks[1].loc.line, 3);
}

#[test]
fn escaped_quote_stays_in_string() {
    let src = "\"ab\\\"c\"";
    let (toks, _) = lex(src);
    assert_eq!(kinds(&toks), vec![TokenKind::Str, TokenKind::Eof]);
    assert_eq!(toks[0].text, src.as_bytes().to_vec());
}

#[test]
fn char_literal() {
    let (toks, _) = lex("'\\n' 'a'");
    assert_eq!(kinds(&toks), vec![TokenKind::Char, TokenKind::Char, TokenKind::Eof]);
    assert_eq!(toks[0].text, b"'\\n'".to_vec());
    assert_eq!(toks[1].text, b"'a'".to_vec());
}

#[test]
fn exponent_with_sign() {
    let (toks, _) = lex("1e+10");
    assert_eq!(kinds(&toks), vec![TokenKind::Number, TokenKind::Eof]);
    assert_eq!(toks[0].text, b"1e+10".to_vec());
}

#[test]
fn hex_number_is_one_token() {
    let (toks, _) = lex("0xFF");
    assert_eq!(kinds(&toks), vec![TokenKind::Number, TokenKind::Eof]);
    assert_eq!(toks[0].text, b"0xFF".to_vec());
}

#[test]
fn number_absorbs_dots_and_letters() {
    let (toks, _) = lex("1.5f 2p-3 1e+10abc;");
    assert_eq!(
        texts(&toks),
        vec![b"1.5f".to_vec(), b"2p-3".to_vec(), b"1e+10abc".to_vec(), b";".to_vec(), vec![]]
    );
}

#[test]
fn eof_comes_last_and_once() {
    for src in ["", "a", "a\n", "x = 1;\n\n  y\n", "  ", "/* c */", "a // c\n"] {
        let (toks, _) = lex(src);
        let n = toks.len();
        assert!(n >= 1);
        assert_eq!(toks[n - 1].kind, TokenKind::Eof);
        for t in &toks[..n - 1] {
            assert_ne!(t.kind, TokenKind::Eof);
            assert_ne!(t.kind, TokenKind::Ws);
            assert_ne!(t.kind, TokenKind::Lf);
        }
    }
}

#[test]
fn empty_input_is_just_eof() {
    let (toks, _) = lex("");
    assert_eq!(kinds(&toks), vec![TokenKind::Eof]);
    assert!(toks[0].text.is_empty());
}

#[test]
fn backtick_is_an_error_token() {
    let (toks, _) = lex("a`b");
    assert_eq!(
        kinds(&toks),
        vec![TokenKind::Ident, TokenKind::Error, TokenKind::Ident, TokenKind::Eof]
    );
    assert_eq!(toks[1].text, b"`".to_vec());
    assert_eq!(toks[2].text, b"b".to_vec());
}

#[test]
fn comments_are_dropped() {
    let (toks, _) = lex("a // note\nb /* x\n y */ c\n");
    assert_eq!(texts(&toks), vec![b"a".to_vec(), b"b".to_vec(), b"c".to_vec(), vec![]]);
    assert!(toks[0].has_flag(LF_AFTER));
    assert!(toks[1].has_flag(IS_AT_BOL));
    assert!(toks[2].has_flag(WS_BEFORE));
    assert!(toks[2].has_flag(LF_AFTER));
}

#[test]
fn slash_alone_is_an_operator() {
    let (toks, _) = lex("a/b /= c");
    assert_eq!(
        kinds(&toks),
        vec![
            TokenKind::Ident,
            TokenKind::Punct(Punct::Slash),
            TokenKind::Ident,
            TokenKind::Punct(Punct::SlashAssign),
            TokenKind::Ident,
            TokenKind::Eof,
        ]
    );
}

#[test]
fn unterminated_line_comment_is_fatal() {
    assert_eq!(lex_err("a // no line feed"), LexError::UnterminatedLineComment);
}

#[test]
fn unterminated_block_comment_is_fatal() {
    assert_eq!(lex_err("a /* open"), LexError::UnterminatedBlockComment);
    assert_eq!(lex_err("/*/"), LexError::UnterminatedBlockComment);
}

#[test]
fn unterminated_literal_is_fatal() {
    assert_eq!(lex_err("\"abc"), LexError::UnterminatedLiteral);
    assert_eq!(lex_err("'a\\"), LexError::UnterminatedLiteral);
}

#[test]
fn locations_are_one_based() {
    let (toks, _) = lex("ab  cd\n  x += \"s\"");
    assert_eq!((toks[0].loc.line, toks[0].loc.column), (1, 1));
    assert_eq!((toks[1].loc.line, toks[1].loc.column), (1, 5));
    assert_eq!((toks[2].loc.line, toks[2].loc.column), (2, 3));
    assert_eq!((toks[3].loc.line, toks[3].loc.column), (2, 5));
    // a literal is placed where its opening quote stands
    assert_eq!((toks[4].loc.line, toks[4].loc.column), (2, 8));
}

#[test]
fn file_name_is_shared_by_tokens() {
    let mut t = Tokenizer::new_from_file("main.c".to_string(), "a b".to_string(), IdentTable::new());
    let toks = t.tokenize().unwrap();
    assert_eq!(toks[0].loc.file.as_str(), "main.c");
    assert_eq!(toks[1].loc.file.as_str(), "main.c");
    let (toks, _) = lex("a");
    assert_eq!(toks[0].loc.file.as_str(), "<string-input>");
}

#[test]
fn next_yields_markers() {
    let mut t = Tokenizer::new_from_string("a \n".to_string(), IdentTable::new());
    let k: Vec<TokenKind> = (0..4).map(|_| t.next().unwrap().kind).collect();
    assert_eq!(k, vec![TokenKind::Ident, TokenKind::Ws, TokenKind::Lf, TokenKind::Eof]);
}

#[test]
fn single_byte_punctuation() {
    let (toks, _) = lex("f(a[0]){}");
    assert_eq!(
        kinds(&toks),
        vec![
            TokenKind::Ident,
            TokenKind::Punct(Punct::LParen),
            TokenKind::Ident,
            TokenKind::Punct(Punct::LBracket),
            TokenKind::Number,
            TokenKind::Punct(Punct::RBracket),
            TokenKind::Punct(Punct::RParen),
            TokenKind::Punct(Punct::LBrace),
            TokenKind::Punct(Punct::RBrace),
            TokenKind::Eof,
        ]
    );
}
