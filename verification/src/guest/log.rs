//! A log that a Windows service can write to.
//!
//! A service has no console, so what it prints is discarded. The log goes to a file, and a log that
//! cannot be written is never the reason that an operation fails.
use crate::text;
use vstd::prelude::*;
use vstd::string::*;

verus! {

/// Where the log goes: beside the staging roots, where the service may write.
pub const DEFAULT_LOG: &'static str = r"C:\ProgramData\wvm\probe.log";

/// Where the log goes, given what the environment says of it.
pub fn log_path(configured: Option<String>) -> (r: String)
    ensures
        r@ == (match configured {
            Some(path) => path@,
            None => DEFAULT_LOG@,
        }),
{
    match configured {
        Some(path) => path,
        None => text::own(DEFAULT_LOG),
    }
}

/// What one message adds to the log: its number and the message, on a line of their own.
pub open spec fn entry(sequence: nat, message: Seq<char>) -> Seq<char> {
    text::decimal(sequence) + " "@ + message + "\n"@
}

/// What one message adds to the log. Several threads write, and the numbers tell in which order
/// they came to it.
pub fn probe(sequence: u64, message: &str) -> (r: String)
    ensures
        r@ == entry(sequence as nat, message@),
{
    let number = text::to_decimal(sequence);
    text::cat4(number.as_str(), " ", message, "\n")
}

/// Lines with different numbers differ, whatever the messages.
pub proof fn lines_are_told_apart(n: nat, m: nat, first: Seq<char>, second: Seq<char>)
    requires
        n != m,
    ensures
        entry(n, first) != entry(m, second),
{
    let a = text::decimal(n);
    let b = text::decimal(m);
    text::decimal_round_trip(n);
    text::decimal_round_trip(m);
    reveal_strlit(" ");
    if entry(n, first) == entry(m, second) {
        let line = entry(n, first);
        assert(line.take(a.len() as int) == a);
        assert(entry(m, second).take(b.len() as int) == b);
        assert(line[a.len() as int] == ' ');
        assert(entry(m, second)[b.len() as int] == ' ');
        if a.len() < b.len() {
            assert(text::is_digit(b[a.len() as int]));
        } else if b.len() < a.len() {
            assert(text::is_digit(a[b.len() as int]));
        }
        assert(a == b);
    }
}

/// A log line is its number, a space, the message as it is and a line feed, so that both read back.
pub proof fn lines_hold_the_message(n: nat, message: Seq<char>)
    ensures
        ({
            let line = entry(n, message);
            let k = text::decimal(n).len() as int;
            &&& text::numeral(line.take(k)) == Some(n)
            &&& line[k] == ' '
            &&& line.subrange(k + 1, line.len() - 1) == message
            &&& line.last() == '\n'
        }),
        DEFAULT_LOG@ == "C:\\ProgramData\\wvm\\probe.log"@,
{
    reveal_strlit(" ");
    reveal_strlit("\n");
    text::numerals_read_back(n, 0);
    let line = entry(n, message);
    let k = text::decimal(n).len() as int;
    assert(line.take(k) =~= text::decimal(n));
    assert(line.subrange(k + 1, line.len() - 1) =~= message);
}

} // verus!
