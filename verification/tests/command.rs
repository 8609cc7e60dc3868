use mcp_stdio_rs::command::{command_from_string, split_command};
use mcp_stdio_rs::Fault;

fn split(line: &str) -> Vec<String> {
    split_command(line).unwrap()
}

#[test]
fn words_end_at_white_space() {
    assert_eq!(split("ssh ultra mnemos-mcp"), ["ssh", "ultra", "mnemos-mcp"]);
    assert_eq!(split("  a \t b\u{a0}c\n"), ["a", "b", "c"]);
    assert_eq!(split(""), [""; 0]);
    assert_eq!(split("   "), [""; 0]);
}

#[test]
fn quotes_keep_text_together() {
    assert_eq!(split("run 'a b' \"c d\""), ["run", "a b", "c d"]);
    assert_eq!(split("a'b c'd"), ["ab cd"]);
    assert_eq!(split("'say \"hi\"' \"it's\""), ["say \"hi\"", "it's"]);
}

#[test]
fn empty_words_do_not_count() {
    assert_eq!(split("a '' \"\" b"), ["a", "b"]);
}

#[test]
fn a_backslash_takes_what_follows() {
    assert_eq!(split("a\\ b"), ["a b"]);
    assert_eq!(split("\\'x\\\""), ["'x\""]);
    assert_eq!(split("'it\\'s' \"\\\"q\\\"\""), ["it's", "\"q\""]);
    assert_eq!(split("a\\\\b"), ["a\\b"]);
    assert_eq!(split("end\\"), ["end"]);
    assert_eq!(split("\\"), [""; 0]);
}

#[test]
fn an_open_quote_is_refused() {
    assert!(matches!(split_command("a 'b c"), Err(Fault::OpenQuote('\''))));
    assert!(matches!(split_command("\"it's"), Err(Fault::OpenQuote('"'))));
    assert!(matches!(split_command("'x\\'"), Err(Fault::OpenQuote('\''))));
    assert_eq!(
        split_command("\"").unwrap_err().messages(),
        ["unterminated \" quote in --cmd"]
    );
}

#[test]
fn escaped_words_come_back() {
    let words = ["my prog", "it's", "\\", "\"", "\u{3000}"];
    let mut line = String::new();
    for word in words {
        if !line.is_empty() {
            line.push(' ');
        }
        for c in word.chars() {
            line.push('\\');
            line.push(c);
        }
    }
    assert_eq!(split(&line), words);
}

#[test]
fn a_command_is_a_program_and_its_arguments() {
    let command = command_from_string("ssh ultra 'mnemos mcp'").unwrap();
    assert_eq!(command.program, "ssh");
    assert_eq!(command.args, ["ultra", "mnemos mcp"]);

    let command = command_from_string("server").unwrap();
    assert_eq!(command.program, "server");
    assert!(command.args.is_empty());
}

#[test]
fn a_command_needs_an_executable() {
    let error = command_from_string(" '' ").unwrap_err();
    assert!(matches!(error, Fault::NoExecutable));
    assert_eq!(error.messages(), ["--cmd must contain an executable"]);
    assert!(matches!(command_from_string("'"), Err(Fault::OpenQuote('\''))));
}
