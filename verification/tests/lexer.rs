use airpulse_dsl::syntax::directives::strip_leading_includes;
use airpulse_dsl::syntax::lexer::{
    is_ident_continue, is_ident_start, keyword_static, line_col, next_token, skip_ws_and_comments, tokenize,
    Punct, TokenKind, TriviaKind,
};

#[test]
fn line_col_handles_utf8_boundaries() {
    let src = "a\nЖ\nz";
    assert_eq!(line_col(src, 0), (1, 1));
    assert_eq!(line_col(src, 2), (2, 1));
    assert_eq!(line_col(src, src.len()), (3, 2));
}

#[test]
fn lex_duration_variants() {
    let tokens = tokenize("500ms 1s 2min").unwrap_or_default();
    assert!(matches!(tokens.first().map(|t| &t.kind), Some(TokenKind::Duration(500))));
    assert!(matches!(tokens.get(1).map(|t| &t.kind), Some(TokenKind::Duration(1000))));
    assert!(matches!(tokens.get(2).map(|t| &t.kind), Some(TokenKind::Duration(120000))));
}

#[test]
fn line_comment_preserved_as_trivia() {
    let src = "// leading note\nruleset";
    let (pos, trivia) = skip_ws_and_comments(src.as_bytes(), 0).unwrap();
    let tok = next_token(src.as_bytes(), pos).unwrap();
    assert!(matches!(tok.kind, TokenKind::Kw("ruleset")));

    assert_eq!(trivia.len(), 1);
    assert_eq!(trivia[0].kind, TriviaKind::LineComment);
    assert_eq!(&src[trivia[0].start..trivia[0].end], "// leading note");
    assert_eq!((trivia[0].start, trivia[0].end), (0, "// leading note".len()));
}

#[test]
fn block_comment_preserved_as_trivia() {
    let src = "/* block */ruleset";
    let (pos, trivia) = skip_ws_and_comments(src.as_bytes(), 0).unwrap();
    let tok = next_token(src.as_bytes(), pos).unwrap();
    assert!(matches!(tok.kind, TokenKind::Kw("ruleset")));

    assert_eq!(trivia.len(), 1);
    assert_eq!(trivia[0].kind, TriviaKind::BlockComment);
    assert_eq!(&src[trivia[0].start..trivia[0].end], "/* block */");
    assert_eq!((trivia[0].start, trivia[0].end), (0, "/* block */".len()));
}

#[test]
fn unclosed_block_comment_still_errors() {
    let src = "/* unclosed\nruleset";
    let err = skip_ws_and_comments(src.as_bytes(), 0).unwrap_err();
    assert_eq!(err.code, "ADGL0106");
}

#[test]
fn strip_leading_includes_allows_comments() {
    let src = "\n// banner\ninclude \"a.adgl\"\n/* block */\ninclude \"b.adgl\"\n\nruleset \"x\" { version = \"1.0\" }\n";
    let (incs, body) = strip_leading_includes(src).unwrap();
    assert_eq!(incs.iter().map(|i| String::from_utf8(i.path.clone()).unwrap()).collect::<Vec<_>>(), ["a.adgl", "b.adgl"]);
    assert!(src[body..].trim_start().starts_with("ruleset"));
}

#[test]
fn leading_directives_report_malformed_paths_and_trailing_tokens() {
    let err = strip_leading_includes("include a.adgl\nruleset").unwrap_err();
    assert_eq!(err.code, "ADGL0202");
    let err = strip_leading_includes("include \"a.adgl\" extra\nruleset").unwrap_err();
    assert_eq!(err.code, "ADGL0202");
    let err = strip_leading_includes("/* open\ninclude \"a.adgl\"").unwrap_err();
    assert_eq!(err.code, "ADGL0106");
    let (incs, body) = strip_leading_includes("includes = 1").unwrap();
    assert!(incs.is_empty());
    assert_eq!(body, 0);
    let (incs, _) = strip_leading_includes("include \"a\\\"b\\n\"\n").unwrap();
    assert_eq!(incs[0].path, b"a\"b\n".to_vec());
    assert_eq!((incs[0].start, incs[0].end), (0, 16));
}

#[test]
fn tokens_cover_numbers_strings_keywords_and_punctuation() {
    let tokens = tokenize("ruleset \"r\" { x >= 0x1F && y != 0b101 }").unwrap();
    let kinds: Vec<TokenKind> = tokens.iter().map(|t| t.kind.clone()).collect();
    assert_eq!(kinds[0], TokenKind::Kw("ruleset"));
    assert_eq!(kinds[1], TokenKind::Str(b"r".to_vec()));
    assert_eq!(kinds[2], TokenKind::Punct(Punct::LBrace));
    assert_eq!(kinds[3], TokenKind::Ident);
    assert_eq!(kinds[4], TokenKind::Punct(Punct::Ge));
    assert_eq!(kinds[5], TokenKind::Int(31));
    assert_eq!(kinds[6], TokenKind::Punct(Punct::AndAnd));
    assert_eq!(kinds[8], TokenKind::Punct(Punct::Ne));
    assert_eq!(kinds[9], TokenKind::Int(5));
    assert_eq!(kinds.last(), Some(&TokenKind::Eof));
    assert!(is_ident_start('_') && !is_ident_start('1'));
    assert!(is_ident_continue('1'));
    assert_eq!(keyword_static("ruleset"), "ruleset");
}
