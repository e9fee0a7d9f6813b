use command_core::tokenizer::{split_parts, TokenizeError};

#[test]
fn split_simple_line() {
    let (key, args) = split_parts("ban alice griefing").unwrap();
    assert_eq!(key, "ban");
    // the argument stack is reversed: the first argument is on top (at the end)
    assert_eq!(args, vec!["griefing".to_string(), "alice".to_string()]);
}

#[test]
fn round_trip_plain_tokens() {
    // splitting a line of plain space-separated tokens and rejoining them
    // with single spaces reproduces the original token sequence
    let tokens = vec!["tp", "alice", "12", "64", "-3"];
    let line = tokens.join(" ");
    let (key, mut args) = split_parts(&line).unwrap();
    let mut rebuilt = vec![key];
    while let Some(a) = args.pop() {
        rebuilt.push(a);
    }
    assert_eq!(rebuilt, tokens);
    assert_eq!(rebuilt.join(" "), line);
}

#[test]
fn unterminated_quote_is_an_error() {
    assert_eq!(split_parts("ban \"player").unwrap_err(), TokenizeError::OpenQuote);
}

#[test]
fn unterminated_brace_is_an_error() {
    assert_eq!(split_parts("ban {x").unwrap_err(), TokenizeError::OpenBrace);
}

#[test]
fn unmatched_close_brace_is_an_error() {
    assert_eq!(split_parts("ban x}").unwrap_err(), TokenizeError::ClosingBrace);
}

#[test]
fn unmatched_close_bracket_is_an_error() {
    assert_eq!(split_parts("ban x]").unwrap_err(), TokenizeError::ClosingBracket);
}

#[test]
fn empty_line_is_an_error() {
    assert_eq!(split_parts("").unwrap_err(), TokenizeError::Empty);
    assert_eq!(split_parts("   ").unwrap_err(), TokenizeError::Empty);
}

#[test]
fn quoted_spaces_stay_in_one_token() {
    let (key, args) = split_parts("say \"hello world\" now").unwrap();
    assert_eq!(key, "say");
    assert_eq!(args, vec!["now".to_string(), "\"hello world\"".to_string()]);
}

#[test]
fn braces_group_tokens() {
    let (key, args) = split_parts("data {a b} tail").unwrap();
    assert_eq!(key, "data");
    assert_eq!(args, vec!["tail".to_string(), "{a b}".to_string()]);
}

#[test]
fn backslash_escapes_a_space_and_is_dropped() {
    let (key, args) = split_parts("msg a\\ b").unwrap();
    assert_eq!(key, "msg");
    assert_eq!(args, vec!["a b".to_string()]);
}

#[test]
fn repeated_spaces_make_no_empty_tokens() {
    let (key, args) = split_parts("a   b    c").unwrap();
    assert_eq!(key, "a");
    assert_eq!(args, vec!["c".to_string(), "b".to_string()]);
}

#[test]
fn round_trip_with_balanced_groups() {
    // balanced brace/bracket tokens without inner spaces also survive the
    // split-then-rejoin cycle
    let tokens = vec!["data", "{a}", "[b]", "plain"];
    let line = tokens.join(" ");
    let (key, mut args) = split_parts(&line).unwrap();
    let mut rebuilt = vec![key];
    while let Some(a) = args.pop() {
        rebuilt.push(a);
    }
    assert_eq!(rebuilt.join(" "), line);
}
