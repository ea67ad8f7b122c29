//! The tokenizer and word assembly, driven through the same pipeline the
//! shell uses: tokenize a line, assemble the logical words, and let `echo`
//! print its arguments.

use vshell::lexer::{parse_input, Token};
use vshell::redirect::Sink;
use vshell::shell::{Action, Shell};
use vshell::words::{assemble_words, split_command};

fn line_words(line: &str) -> Vec<String> {
    let tokens = parse_input(line);
    assemble_words(&tokens)
}

/// Run a full `echo` invocation and return what lands in the output buffer.
fn echo_output(line: &str) -> String {
    let words = line_words(line);
    let (command, args) = split_command(words).unwrap();
    assert_eq!(command, "echo");
    let mut sh = Shell::new(command, args, Sink::Inherit, Sink::Inherit);
    let action = sh.execute("/", "/root");
    assert_eq!(action, Action::Done(0));
    sh.write_to_stdout_buffer()
}

#[test]
fn echo_plain_words() {
    assert_eq!(echo_output("echo 2"), "2\n");
    assert_eq!(echo_output("echo a"), "a\n");
    assert_eq!(echo_output("echo banana orange"), "banana orange\n");
}

#[test]
fn echo_single_quotes() {
    assert_eq!(echo_output("echo 'abc'"), "abc\n");
    assert_eq!(echo_output("echo 'shell hello'"), "shell hello\n");
    assert_eq!(echo_output("echo 'world     test'"), "world     test\n");
}

#[test]
fn echo_double_quotes() {
    assert_eq!(echo_output("echo \"abc\""), "abc\n");
    assert_eq!(echo_output("echo \"abc\" '123'"), "abc 123\n");
    assert_eq!(echo_output("echo \"quz  hello\"  \"bar\""), "quz  hello bar\n");
    assert_eq!(echo_output("echo \"bar\"  \"shell's\"  \"foo\""), "bar shell's foo\n");
}

#[test]
fn echo_adjacent_fragments_concatenate() {
    assert_eq!(echo_output("echo \"1\"\"2\""), "12\n");
    assert_eq!(
        echo_output("echo \"test\"  \"hello's\"  world\"\"script"),
        "test hello's worldscript\n"
    );
}

#[test]
fn echo_backslash_outside_quotes() {
    assert_eq!(echo_output(r"echo world\ \ \ \ \ \ script"), "world      script\n");
}

#[test]
fn echo_backslash_inside_double_quotes() {
    // A backslash before an ordinary character stays verbatim.
    assert_eq!(echo_output(r#"echo "before\   after""#), r"before\   after
");
    // A backslash before a backslash collapses to one.
    assert_eq!(
        echo_output(r#"echo "hello'script'\\n'world""#),
        "hello'script'\\n'world\n"
    );
    // A backslash before a double quote keeps the quote literal.
    assert_eq!(
        echo_output(r#"echo "hello\"insidequotes"script\""#),
        "hello\"insidequotesscript\"\n"
    );
}

#[test]
fn tokens_mark_separators() {
    let tokens = parse_input("a  b");
    assert_eq!(tokens.len(), 3);
    assert!(matches!(&tokens[0], Token::Fragment(f) if f == "a"));
    assert!(matches!(&tokens[1], Token::Separator));
    assert!(matches!(&tokens[2], Token::Fragment(f) if f == "b"));
}

#[test]
fn no_leading_separator() {
    let tokens = parse_input("   a");
    assert_eq!(tokens.len(), 1);
    assert!(matches!(&tokens[0], Token::Fragment(f) if f == "a"));
}

#[test]
fn unterminated_single_quote_runs_to_end() {
    assert_eq!(line_words("'abc def"), vec!["abc def".to_string()]);
}

#[test]
fn unterminated_double_quote_runs_to_end() {
    assert_eq!(line_words("\"abc def"), vec!["abc def".to_string()]);
}

#[test]
fn trailing_backslash_is_dropped() {
    assert_eq!(line_words("abc\\"), vec!["abc".to_string()]);
}

#[test]
fn empty_quotes_make_an_empty_word() {
    assert_eq!(line_words("''"), vec!["".to_string()]);
    assert_eq!(line_words("\"\" x"), vec!["".to_string(), "x".to_string()]);
}

#[test]
fn empty_line_has_no_words() {
    assert_eq!(line_words(""), Vec::<String>::new());
    assert_eq!(line_words("   "), Vec::<String>::new());
}
