//! Command lines, outcomes and output of a process in the guest.
use wvm::guest::win32::{build_command_line, poll, quote_arg, read_pipe, run, Outcome, Poll};

#[test]
fn a_plain_argument_is_left_alone() {
    assert_eq!(quote_arg("simple"), "simple");
    assert_eq!(
        quote_arg("C:/Windows/System32/cmd.exe"),
        "C:/Windows/System32/cmd.exe"
    );
}

#[test]
fn an_argument_with_spaces_is_quoted() {
    assert_eq!(quote_arg("Program Files"), "\"Program Files\"");
}

#[test]
fn an_empty_argument_becomes_a_pair_of_quotes() {
    // Without this, an empty argument vanishes entirely and shifts every later argument.
    assert_eq!(quote_arg(""), "\"\"");
}

#[test]
fn a_quote_inside_an_argument_is_escaped() {
    // `say "hi"` must survive as one argument containing quotes.
    assert_eq!(quote_arg("say \"hi\""), "\"say \\\"hi\\\"\"");
}

#[test]
fn a_trailing_backslash_is_doubled_when_quoted() {
    // The classic bug. A single trailing backslash escapes the closing quote, so the argument
    // never terminates and the following text is swallowed into it. `C:\Program Files\` must
    // become `"C:\Program Files\\"`.
    assert_eq!(
        quote_arg("C:\\Program Files\\"),
        "\"C:\\Program Files\\\\\""
    );
}

#[test]
fn a_backslash_before_a_quote_is_doubled() {
    // `a\` then a quote: the backslash must not be read as escaping the quote.
    assert_eq!(quote_arg("a\\\"b"), "\"a\\\\\\\"b\"");
}

#[test]
fn backslashes_not_near_a_quote_are_untouched() {
    assert_eq!(quote_arg("a\\b\\c"), "a\\b\\c");
    assert_eq!(
        quote_arg("C:\\path with space\\inner"),
        "\"C:\\path with space\\inner\""
    );
}

#[test]
fn a_command_line_joins_program_and_arguments() {
    let line = build_command_line(
        "C:\\Program Files\\app\\run.exe",
        &["--flag".to_string(), "value with space".to_string()],
    );
    assert_eq!(
        line,
        "\"C:\\Program Files\\app\\run.exe\" --flag \"value with space\""
    );
}

#[test]
fn a_timed_out_process_is_not_reported_as_a_failure() {
    // The distinction the Outcome enum exists to preserve. A caller seeing `TimedOut` knows to
    // raise the limit; a caller seeing a non-zero exit knows the program itself failed.
    let timed_out = Outcome::TimedOut {
        killed_after_ms: 5000,
    };
    assert!(!timed_out.is_success());
    assert_ne!(timed_out, Outcome::Exited { code: 1 });
    assert!(Outcome::Exited { code: 0 }.is_success());
    assert!(!Outcome::Exited { code: 1 }.is_success());
}

#[test]
fn execution_without_a_windows_guest_says_so() {
    // On a host build this must be an explicit error, never a fabricated success. A stub that
    // pretends to have run something is worse than one that admits it cannot.
    let err = run("cmd.exe", &[], None, 1000).expect_err("must not succeed off Windows");
    let msg = err.to_string();
    assert!(
        msg.contains("only present in a Windows build"),
        "the error should explain itself: {msg}"
    );
}

#[test]
fn reading_a_missing_pipe_yields_empty_text() {
    assert_eq!(read_pipe(None), "");
}

#[test]
fn invalid_utf8_is_decoded_lossily_rather_than_failing() {
    // Windows console output is not reliably UTF-8. A program emitting a stray byte must still
    // produce readable output, because that is exactly the output most worth reading.
    let bad: &[u8] = &[b'o', b'k', 0xff, b'!'];
    let text = read_pipe(Some(bad));
    assert!(
        text.starts_with("ok"),
        "readable prefix must survive: {text:?}"
    );
    assert!(
        text.ends_with('!'),
        "readable suffix must survive: {text:?}"
    );
    assert!(
        text.contains('\u{fffd}'),
        "the bad byte is marked, not dropped"
    );
}

/// Take a command line apart as a Windows program does.
fn split_command_line(line: &str) -> Vec<String> {
    let chars: Vec<char> = line.chars().collect();
    let mut args = Vec::new();
    let mut current = String::new();
    let mut quoted = false;
    let mut any = false;
    let mut i = 0;
    while i < chars.len() {
        match chars[i] {
            '\\' => {
                let start = i;
                while i < chars.len() && chars[i] == '\\' {
                    i += 1;
                }
                let n = i - start;
                if i < chars.len() && chars[i] == '"' {
                    current.push_str(&"\\".repeat(n / 2));
                    if n % 2 == 1 {
                        current.push('"');
                    } else {
                        quoted = !quoted;
                    }
                    i += 1;
                } else {
                    current.push_str(&"\\".repeat(n));
                }
                any = true;
            }
            '"' => {
                quoted = !quoted;
                any = true;
                i += 1;
            }
            c if (c == ' ' || c == '\t') && !quoted => {
                if any {
                    args.push(std::mem::take(&mut current));
                    any = false;
                }
                i += 1;
            }
            c => {
                current.push(c);
                any = true;
                i += 1;
            }
        }
    }
    if any {
        args.push(current);
    }
    args
}

#[test]
fn a_program_sees_the_arguments_that_were_given() {
    let args: Vec<String> = ["", "a b", "q\"q", "t\\", "a\\\"", "x\ty", "C:\\p q\\"]
        .iter()
        .map(|a| a.to_string())
        .collect();
    let line = build_command_line("C:\\Program Files\\run.exe", &args);
    let seen = split_command_line(&line);
    assert_eq!(seen[0], "C:\\Program Files\\run.exe");
    assert_eq!(seen[1..].to_vec(), args);
}

#[test]
fn a_process_is_waited_for_until_its_time_is_up() {
    assert_eq!(poll(Some(Some(7)), 10, 5), Poll::Exited { code: 7 });
    assert_eq!(poll(Some(None), 10, 5), Poll::Exited { code: -1 });
    assert_eq!(poll(None, 4, 5), Poll::Wait);
    assert_eq!(poll(None, 5, 5), Poll::Kill);
}
