use hoshi::args::{build, default_presets, requote, tokenize, PresetTable};
use hoshi::error::{CoreError, TokenizeError};

#[test]
fn tokenize_quoted_filter() {
    let tokens = tokenize("-vf \"scale=100:-1\"").unwrap();
    assert_eq!(tokens, vec!["-vf".to_string(), "scale=100:-1".to_string()]);
}

#[test]
fn tokenize_unbalanced_quote_fails() {
    let r = tokenize("-vf \"scale");
    assert!(matches!(r, Err(TokenizeError::UnterminatedDoubleQuote)));
}

#[test]
fn tokenize_single_quotes_are_literal() {
    let tokens = tokenize("a 'b  c' d").unwrap();
    assert_eq!(tokens, vec!["a".to_string(), "b  c".to_string(), "d".to_string()]);
    let tokens = tokenize("'no \\escapes $here'").unwrap();
    assert_eq!(tokens, vec!["no \\escapes $here".to_string()]);
}

#[test]
fn tokenize_backslash_escapes() {
    let tokens = tokenize("a\\ b").unwrap();
    assert_eq!(tokens, vec!["a b".to_string()]);
    let tokens = tokenize("\"x\\\"y\"").unwrap();
    assert_eq!(tokens, vec!["x\"y".to_string()]);
    let tokens = tokenize("\"keep\\here\"").unwrap();
    assert_eq!(tokens, vec!["keep\\here".to_string()]);
}

#[test]
fn tokenize_empty_quotes_make_empty_token() {
    let tokens = tokenize("'' a").unwrap();
    assert_eq!(tokens, vec!["".to_string(), "a".to_string()]);
}

#[test]
fn tokenize_whitespace_only_is_no_tokens() {
    let tokens = tokenize("   \t \r\n ").unwrap();
    assert!(tokens.is_empty());
    let tokens = tokenize("").unwrap();
    assert!(tokens.is_empty());
}

#[test]
fn tokenize_unterminated_single_quote_fails() {
    assert!(matches!(tokenize("'abc"), Err(TokenizeError::UnterminatedSingleQuote)));
}

#[test]
fn tokenize_dangling_escape_fails() {
    assert!(matches!(tokenize("x\\"), Err(TokenizeError::DanglingEscape)));
}

#[test]
fn retokenizing_requoted_output_is_idempotent() {
    for text in [
        "-vf \"scale=100:-1\"",
        "a 'b  c' d",
        "it\\'s  \"a \\\" test\"",
        "",
        "''",
    ] {
        let tokens = tokenize(text).unwrap();
        let requoted = requote(&tokens);
        let again = tokenize(&requoted).unwrap();
        assert_eq!(again, tokens);
    }
}

#[test]
fn requote_handles_embedded_single_quotes() {
    let tokens = vec!["it's".to_string(), "a b".to_string(), "".to_string()];
    let requoted = requote(&tokens);
    assert_eq!(requoted, "'it'\\''s' 'a b' ''");
    assert_eq!(tokenize(&requoted).unwrap(), tokens);
}

#[test]
fn default_presets_hold_the_gif_filter() {
    let presets = default_presets();
    assert_eq!(presets.entries.len(), 1);
    assert_eq!(presets.entries[0].0, "gif");
    assert_eq!(
        presets.entries[0].1,
        "-filter_complex \"[0:v]split[x][p];[p]palettegen[p];[x][p]paletteuse\""
    );
}

#[test]
fn build_prefers_explicit_arguments() {
    let presets = default_presets();
    let explicit = String::from("-b:v 300k");
    let key = String::from("gif");
    let args = build(Some(&explicit), Some(&key), &presets).unwrap();
    assert_eq!(args, vec!["-b:v".to_string(), "300k".to_string()]);
}

#[test]
fn build_uses_preset_when_no_explicit_text() {
    let presets = default_presets();
    let key = String::from("gif");
    let args = build(None, Some(&key), &presets).unwrap();
    assert_eq!(
        args,
        vec![
            "-filter_complex".to_string(),
            "[0:v]split[x][p];[p]palettegen[p];[x][p]paletteuse".to_string(),
        ]
    );
}

#[test]
fn build_without_text_or_preset_is_empty() {
    let presets = default_presets();
    assert!(build(None, None, &presets).unwrap().is_empty());
    let key = String::from("webm");
    assert!(build(None, Some(&key), &presets).unwrap().is_empty());
}

#[test]
fn build_reports_malformed_text_as_parse_failure() {
    let presets = default_presets();
    let explicit = String::from("-vf \"scale");
    let r = build(Some(&explicit), None, &presets);
    assert!(matches!(
        r,
        Err(CoreError::ParseFailed(TokenizeError::UnterminatedDoubleQuote))
    ));
}

#[test]
fn preset_lookup_takes_first_match() {
    let table = PresetTable {
        entries: vec![
            ("a".to_string(), "first".to_string()),
            ("a".to_string(), "second".to_string()),
        ],
    };
    assert_eq!(table.lookup("a").unwrap(), "first");
    assert!(table.lookup("b").is_none());
}
