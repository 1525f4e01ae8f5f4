use shu::split::{split_args, SplitArgs};

fn sv(xs: &[&str]) -> Vec<String> {
    xs.iter().map(|s| s.to_string()).collect()
}

#[test]
fn brace_expansion_in_command() {
    assert_eq!(split_args("echo a{b,c}d"), sv(&["echo", "abd", "acd"]));
}

#[test]
fn quoted_token_preserved_verbatim() {
    assert_eq!(
        split_args("grep \"hi there\" file.txt"),
        sv(&["grep", "hi there", "file.txt"])
    );
}

#[test]
fn single_quotes_work_too() {
    assert_eq!(split_args("echo 'a b' c"), sv(&["echo", "a b", "c"]));
}

#[test]
fn redirect_operator_is_its_own_token() {
    assert_eq!(
        split_args("cat a.txt > out.txt"),
        sv(&["cat", "a.txt", ">", "out.txt"])
    );
}

#[test]
fn redirect_operator_without_spaces() {
    assert_eq!(
        split_args("cat a.txt>out.txt"),
        sv(&["cat", "a.txt", ">", "out.txt"])
    );
}

#[test]
fn append_operator_is_one_token() {
    assert_eq!(
        split_args("cat a.txt >> out.txt"),
        sv(&["cat", "a.txt", ">>", "out.txt"])
    );
}

#[test]
fn pipe_is_its_own_token() {
    assert_eq!(
        split_args("grep foo file | cat"),
        sv(&["grep", "foo", "file", "|", "cat"])
    );
}

#[test]
fn comment_drops_rest_of_line() {
    assert_eq!(split_args("a # comment"), sv(&["a"]));
}

#[test]
fn comment_cuts_even_inside_open_brace() {
    assert_eq!(split_args("x{a,b # c"), sv(&["x{a,b"]));
}

#[test]
fn expand_without_braces_is_identity() {
    assert_eq!(SplitArgs::expand_braces("plain"), sv(&["plain"]));
}

#[test]
fn nested_brace_expansion_left_to_right() {
    assert_eq!(SplitArgs::expand_braces("{a,b{c,d}}"), sv(&["a", "bc", "bd"]));
}

#[test]
fn expand_trims_blanks_around_parts() {
    assert_eq!(SplitArgs::expand_braces("{a, b}"), sv(&["a", "b"]));
}

#[test]
fn expand_with_prefix_and_suffix() {
    assert_eq!(SplitArgs::expand_braces("a{}b"), sv(&["ab"]));
}

#[test]
fn unmatched_open_brace_stays_literal() {
    assert_eq!(SplitArgs::expand_braces("a{b,c"), sv(&["a{b,c"]));
}

#[test]
fn stray_closing_brace_is_ignored() {
    assert_eq!(split_args("a}b"), sv(&["a}b"]));
}

#[test]
fn unterminated_quote_degrades_to_literal_text() {
    assert_eq!(split_args("echo 'abc"), sv(&["echo", "abc"]));
}

#[test]
fn empty_quotes_produce_no_token() {
    assert_eq!(split_args("a \"\" b"), sv(&["a", "b"]));
}

#[test]
fn split_brace_content_respects_nesting() {
    assert_eq!(
        SplitArgs::split_brace_content("a,b{c,d},e".to_string()),
        sv(&["a", "b{c,d}", "e"])
    );
}

#[test]
fn rebuild_returns_the_tokens() {
    let sa = SplitArgs::split("cat x").unwrap();
    assert_eq!(sa.rebuild(), sv(&["cat", "x"]));
}

#[test]
fn whitespace_inside_braces_does_not_split() {
    assert_eq!(split_args("a{b, c}d"), sv(&["abd", "acd"]));
}

#[test]
fn empty_line_has_no_tokens() {
    assert_eq!(split_args(""), sv(&[]));
    assert_eq!(split_args("   "), sv(&[]));
}
