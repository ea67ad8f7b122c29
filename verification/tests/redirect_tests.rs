//! Redirection extraction: which operators are honored, what they leave
//! behind, and which sink they build.

use vshell::lexer::parse_input;
use vshell::redirect::{extract_stderr_redirect, extract_stdout_redirect, Sink};
use vshell::words::assemble_words;

fn words(args: &[&str]) -> Vec<String> {
    args.iter().map(|a| a.to_string()).collect()
}

#[test]
fn truncating_stdout_operators() {
    for op in [">", "1>"] {
        let mut args = words(&["hi", op, "/tmp/f"]);
        let sink = extract_stdout_redirect(&mut args);
        assert_eq!(sink, Sink::Truncate("/tmp/f".to_string()));
        assert_eq!(args, words(&["hi"]));
    }
}

#[test]
fn appending_stdout_operators() {
    for op in [">>", "1>>"] {
        let mut args = words(&["hi", op, "/tmp/f"]);
        let sink = extract_stdout_redirect(&mut args);
        assert_eq!(sink, Sink::Append("/tmp/f".to_string()));
        assert_eq!(args, words(&["hi"]));
    }
}

#[test]
fn stderr_operators() {
    let mut args = words(&["hi", "2>", "/tmp/e"]);
    let sink = extract_stderr_redirect(&mut args);
    assert_eq!(sink, Sink::Truncate("/tmp/e".to_string()));
    assert_eq!(args, words(&["hi"]));

    let mut args = words(&["hi", "2>>", "/tmp/e"]);
    let sink = extract_stderr_redirect(&mut args);
    assert_eq!(sink, Sink::Append("/tmp/e".to_string()));
    assert_eq!(args, words(&["hi"]));
}

#[test]
fn stdout_extraction_ignores_stderr_operators() {
    let mut args = words(&["hi", "2>", "/tmp/e"]);
    let sink = extract_stdout_redirect(&mut args);
    assert_eq!(sink, Sink::Inherit);
    assert_eq!(args, words(&["hi", "2>", "/tmp/e"]));
}

#[test]
fn no_operator_inherits_the_stream() {
    let mut args = words(&["a", "b"]);
    assert_eq!(extract_stdout_redirect(&mut args), Sink::Inherit);
    assert_eq!(extract_stderr_redirect(&mut args), Sink::Inherit);
    assert_eq!(args, words(&["a", "b"]));
}

#[test]
fn operator_without_following_path_is_not_honored() {
    let mut args = words(&["hi", ">"]);
    assert_eq!(extract_stdout_redirect(&mut args), Sink::Inherit);
    assert_eq!(args, words(&["hi", ">"]));
}

#[test]
fn operator_too_early_is_not_honored() {
    let mut args = words(&[">", "f", "extra"]);
    assert_eq!(extract_stdout_redirect(&mut args), Sink::Inherit);
    assert_eq!(args, words(&[">", "f", "extra"]));
}

#[test]
fn first_operator_wins_even_when_misplaced() {
    // The scan takes the first matching operator; one that is not second to
    // last blocks extraction rather than falling through to a later one.
    let mut args = words(&["x", ">", "f", "2>", "g"]);
    assert_eq!(extract_stdout_redirect(&mut args), Sink::Inherit);
    assert_eq!(args, words(&["x", ">", "f", "2>", "g"]));
    assert_eq!(extract_stderr_redirect(&mut args), Sink::Truncate("g".to_string()));
    assert_eq!(args, words(&["x", ">", "f"]));
}

#[test]
fn both_streams_can_be_redirected_on_one_line() {
    // Standard output is extracted first, which uncovers the stderr pair.
    let mut args = words(&["a", "2>", "/tmp/e", "1>", "/tmp/o"]);
    let out = extract_stdout_redirect(&mut args);
    assert_eq!(out, Sink::Truncate("/tmp/o".to_string()));
    let err = extract_stderr_redirect(&mut args);
    assert_eq!(err, Sink::Truncate("/tmp/e".to_string()));
    assert_eq!(args, words(&["a"]));
}

#[test]
fn redirection_tokens_come_out_of_the_tokenizer() {
    // `>` is a word character, so operators arrive as ordinary words.
    let tokens = parse_input("echo 'hi' > /tmp/f");
    let mut ws = assemble_words(&tokens);
    assert_eq!(ws, words(&["echo", "hi", ">", "/tmp/f"]));
    let mut args = ws.split_off(1);
    let sink = extract_stdout_redirect(&mut args);
    assert_eq!(sink, Sink::Truncate("/tmp/f".to_string()));
    assert_eq!(args, words(&["hi"]));
}

#[test]
fn append_operator_from_a_full_line() {
    let tokens = parse_input("echo 'bye' >> /tmp/f");
    let mut ws = assemble_words(&tokens);
    let mut args = ws.split_off(1);
    let sink = extract_stdout_redirect(&mut args);
    assert_eq!(sink, Sink::Append("/tmp/f".to_string()));
    assert_eq!(args, words(&["bye"]));
}
