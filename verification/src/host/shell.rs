//! Command lines as a POSIX shell takes them: quoting arguments, and how a shell reads them back.
use crate::text;
use vstd::prelude::*;
use vstd::string::*;

verus! {

// ---------------------------------------------------------------------------
// Writing
// ---------------------------------------------------------------------------

/// A character that means something to a shell where it stands outside quotes.
pub open spec fn is_special(c: char) -> bool {
    ||| c == ' ' || c == '\t' || c == '\n'
    ||| c == '\'' || c == '"' || c == '\\' || c == '`' || c == '$'
    ||| c == '|' || c == '&' || c == ';' || c == '<' || c == '>' || c == '(' || c == ')'
    ||| c == '*' || c == '?' || c == '[' || c == '{' || c == '}' || c == '~' || c == '#' || c == '!'
}

/// Whether an argument is put in quotes: one that is empty or holds a special character has to be,
/// and one that holds a comma is, to be read as one.
pub open spec fn is_quoted(arg: Seq<char>) -> bool {
    arg.len() == 0 || exists|i: int|
        0 <= i < arg.len() && (#[trigger] arg[i] == ',' || is_special(arg[i]))
}

/// What stands for a character inside single quotes. A single quote ends them, stands escaped, and
/// begins them anew.
pub open spec fn inside(c: char) -> Seq<char> {
    if c == '\'' {
        seq!['\'', '\\', '\'', '\'']
    } else {
        seq![c]
    }
}

/// What stands for a text inside single quotes.
pub open spec fn body(arg: Seq<char>) -> Seq<char>
    decreases arg.len(),
{
    if arg.len() == 0 {
        Seq::empty()
    } else {
        body(arg.drop_last()) + inside(arg.last())
    }
}

/// An argument as a shell takes it.
pub open spec fn word(arg: Seq<char>) -> Seq<char> {
    if is_quoted(arg) {
        "'"@ + body(arg) + "'"@
    } else {
        arg
    }
}

/// A program and its arguments as a line that a shell takes.
pub open spec fn line(args: Seq<Seq<char>>) -> Seq<char> {
    text::joined(args.map_values(|a: Seq<char>| word(a)), " "@)
}

fn special(c: char) -> (r: bool)
    ensures
        r == is_special(c),
{
    c == ' ' || c == '\t' || c == '\n' || c == '\'' || c == '"' || c == '\\' || c == '`' || c == '$'
        || c == '|' || c == '&' || c == ';' || c == '<' || c == '>' || c == '(' || c == ')' || c
        == '*' || c == '?' || c == '[' || c == '{' || c == '}' || c == '~' || c == '#' || c == '!'
}

/// Write an argument as a shell takes it.
pub fn quote(arg: &str) -> (r: String)
    ensures
        r@ == word(arg@),
{
    let chars = text::to_chars(arg);
    let mut quoted: bool = chars.len() == 0;
    let mut inner = String::new();
    let mut i: usize = 0;
    while i < chars.len()
        invariant
            i <= chars.len(),
            chars@ == arg@,
            quoted == (arg@.len() == 0 || exists|k: int|
                0 <= k < i && (#[trigger] arg@[k] == ',' || is_special(arg@[k]))),
            inner@ == body(arg@.take(i as int)),
        decreases chars.len() - i,
    {
        let c: char = chars[i];
        proof {
            assert(arg@.take(i + 1).drop_last() == arg@.take(i as int));
            assert(arg@.take(i + 1).last() == c);
            assert(arg@[i as int] == c);
        }
        if c == ',' || special(c) {
            quoted = true;
        }
        if c == '\'' {
            inner.push('\'');
            inner.push('\\');
            inner.push('\'');
            inner.push('\'');
        } else {
            inner.push(c);
        }
        assert(inner@ == body(arg@.take(i as int)) + inside(c));
        i += 1;
    }
    assert(arg@.take(arg@.len() as int) == arg@);
    if quoted {
        text::cat3("'", inner.as_str(), "'")
    } else {
        text::own(arg)
    }
}

/// Write a program and its arguments as a line that a shell takes.
pub fn write_line(args: &[String]) -> (r: String)
    ensures
        r@ == line(text::views(args@)),
{
    let mut words: Vec<String> = Vec::new();
    let mut i: usize = 0;
    let ghost all = text::views(args@);
    while i < args.len()
        invariant
            i <= args.len(),
            all == text::views(args@),
            text::views(words@) == all.take(i as int).map_values(|a: Seq<char>| word(a)),
        decreases args.len() - i,
    {
        let w = quote(args[i].as_str());
        proof {
            text::views_push(words@, w);
            assert(all[i as int] == args@[i as int]@);
            assert(all.take(i + 1).map_values(|a: Seq<char>| word(a)) == all.take(
                i as int,
            ).map_values(|a: Seq<char>| word(a)).push(w@));
        }
        words.push(w);
        i += 1;
    }
    assert(all.take(all.len() as int) == all);
    text::join(&words, " ")
}

// ---------------------------------------------------------------------------
// Reading
// ---------------------------------------------------------------------------

/// Where a shell stands while it reads a line.
pub enum Place {
    /// Between two words.
    Between,
    /// In a word, outside quotes.
    Bare,
    /// In a word, inside single quotes.
    Quoted,
    /// In a word, after a backslash.
    Escaped,
}

/// The words that a shell makes of the rest of a line, behind those it has and the one that it is
/// in. Nothing where a quote is left open, and where a special character would do something else
/// than stand in a word.
pub open spec fn read(
    s: Seq<char>,
    place: Place,
    words: Seq<Seq<char>>,
    current: Seq<char>,
) -> Option<Seq<Seq<char>>>
    decreases s.len(),
{
    if s.len() == 0 {
        match place {
            Place::Between => Some(words),
            Place::Bare => Some(words.push(current)),
            _ => None,
        }
    } else {
        let c = s[0];
        let rest = s.skip(1);
        match place {
            Place::Quoted => if c == '\'' {
                read(rest, Place::Bare, words, current)
            } else {
                read(rest, Place::Quoted, words, current.push(c))
            },
            Place::Escaped => read(rest, Place::Bare, words, current.push(c)),
            _ => if c == ' ' {
                if place is Between {
                    read(rest, Place::Between, words, current)
                } else {
                    read(rest, Place::Between, words.push(current), Seq::empty())
                }
            } else if c == '\'' {
                read(rest, Place::Quoted, words, current)
            } else if c == '\\' {
                read(rest, Place::Escaped, words, current)
            } else if is_special(c) {
                None
            } else {
                read(rest, Place::Bare, words, current.push(c))
            },
        }
    }
}

/// The words that a shell makes of a line.
pub open spec fn words(line: Seq<char>) -> Option<Seq<Seq<char>>> {
    read(line, Place::Between, Seq::empty(), Seq::empty())
}

// ---------------------------------------------------------------------------
// Laws
// ---------------------------------------------------------------------------

/// One character inside single quotes is read back.
proof fn inside_is_read(c: char, tail: Seq<char>, words: Seq<Seq<char>>, current: Seq<char>)
    ensures
        read(inside(c) + tail, Place::Quoted, words, current) == read(
            tail,
            Place::Quoted,
            words,
            current.push(c),
        ),
{
    let s = inside(c) + tail;
    if c == '\'' {
        let s1 = s.skip(1);
        let s2 = s1.skip(1);
        let s3 = s2.skip(1);
        assert(s[0] == '\'');
        assert(s1[0] == '\\');
        assert(s2[0] == '\'');
        assert(s3[0] == '\'');
        assert(s3.skip(1) == tail);
        assert(read(s, Place::Quoted, words, current) == read(s1, Place::Bare, words, current));
        assert(read(s1, Place::Bare, words, current) == read(s2, Place::Escaped, words, current));
        assert(read(s2, Place::Escaped, words, current) == read(
            s3,
            Place::Bare,
            words,
            current.push(c),
        ));
    } else {
        assert(s.skip(1) == tail);
    }
}

/// A text inside single quotes is read back.
proof fn body_is_read(arg: Seq<char>, tail: Seq<char>, words: Seq<Seq<char>>, current: Seq<char>)
    ensures
        read(body(arg) + tail, Place::Quoted, words, current) == read(
            tail,
            Place::Quoted,
            words,
            current + arg,
        ),
    decreases arg.len(),
{
    if arg.len() == 0 {
        assert(body(arg) + tail == tail);
        assert(current + arg == current);
    } else {
        let front = arg.drop_last();
        let after = inside(arg.last()) + tail;
        assert(body(arg) + tail == body(front) + after);
        body_is_read(front, after, words, current);
        inside_is_read(arg.last(), tail, words, current + front);
        assert((current + front).push(arg.last()) == current + arg);
    }
}

/// A text without special characters is read back.
proof fn bare_is_read(
    arg: Seq<char>,
    tail: Seq<char>,
    place: Place,
    words: Seq<Seq<char>>,
    current: Seq<char>,
)
    requires
        arg.len() > 0,
        forall|i: int| 0 <= i < arg.len() ==> !is_special(#[trigger] arg[i]),
        place is Between || place is Bare,
    ensures
        read(arg + tail, place, words, current) == read(tail, Place::Bare, words, current + arg),
    decreases arg.len(),
{
    let rest = arg.skip(1);
    let s = arg + tail;
    assert(!is_special(arg[0]));
    assert(s[0] == arg[0]);
    assert(s.skip(1) == rest + tail);
    assert(read(s, place, words, current) == read(
        rest + tail,
        Place::Bare,
        words,
        current.push(arg[0]),
    ));
    if rest.len() == 0 {
        assert(rest + tail == tail);
        assert(current.push(arg[0]) == current + arg);
    } else {
        assert forall|i: int| 0 <= i < rest.len() implies !is_special(#[trigger] rest[i]) by {
            assert(rest[i] == arg[i + 1]);
        }
        bare_is_read(rest, tail, Place::Bare, words, current.push(arg[0]));
        assert(current.push(arg[0]) + rest == current + arg);
    }
}

/// A word is read back as the argument that it stands for.
proof fn word_is_read(arg: Seq<char>, tail: Seq<char>, words: Seq<Seq<char>>)
    ensures
        read(word(arg) + tail, Place::Between, words, Seq::empty()) == read(
            tail,
            Place::Bare,
            words,
            arg,
        ),
{
    let none = Seq::<char>::empty();
    if is_quoted(arg) {
        reveal_strlit("'");
        let s = word(arg) + tail;
        let closing = seq!['\''] + tail;
        assert(s[0] == '\'');
        assert(s.skip(1) == body(arg) + closing);
        body_is_read(arg, closing, words, none);
        assert(none + arg == arg);
        assert(closing[0] == '\'');
        assert(closing.skip(1) == tail);
    } else {
        assert forall|i: int| 0 <= i < arg.len() implies !is_special(#[trigger] arg[i]) by {}
        bare_is_read(arg, tail, Place::Between, words, none);
        assert(none + arg == arg);
    }
}

/// The words of a line are read back behind those there are.
proof fn rest_is_read(args: Seq<Seq<char>>, before: Seq<Seq<char>>)
    requires
        args.len() > 0,
    ensures
        read(line(args), Place::Between, before, Seq::empty()) == Some(before + args),
    decreases args.len(),
{
    let parts = args.map_values(|a: Seq<char>| word(a));
    let none = Seq::<char>::empty();
    if args.len() == 1 {
        assert(line(args) == word(args[0]) + none);
        word_is_read(args[0], none, before);
        assert(before.push(args[0]) == before + args);
    } else {
        let rest = args.skip(1);
        text::joined_from_front(parts, " "@);
        assert(parts.skip(1) == rest.map_values(|a: Seq<char>| word(a)));
        reveal_strlit(" ");
        let tail = " "@ + line(rest);
        assert(line(args) == word(args[0]) + tail);
        word_is_read(args[0], tail, before);
        assert(tail[0] == ' ');
        assert(tail.skip(1) == line(rest));
        rest_is_read(rest, before.push(args[0]));
        assert(before.push(args[0]) + rest == before + args);
    }
}

/// A shell that is given a line makes of it the program and the arguments that it was written for,
/// whatever they hold.
pub proof fn shells_read_what_was_written(args: Seq<Seq<char>>)
    ensures
        words(line(args)) == Some(args),
{
    if args.len() == 0 {
        assert(line(args) == Seq::<char>::empty());
        assert(args == Seq::<Seq<char>>::empty());
    } else {
        rest_is_read(args, Seq::empty());
        assert(Seq::<Seq<char>>::empty() + args == args);
    }
}

/// A word is written as it is exactly where it is not empty and no character of it means anything to a
/// shell, and a comma counts as one that does.
pub proof fn plain_words_stand_as_they_are(arg: Seq<char>)
    ensures
        arg.len() == 0 ==> word(arg) == seq!['\'', '\''],
        arg.len() > 0 && (forall|i: int|
            0 <= i < arg.len() ==> ('a' <= #[trigger] arg[i] && arg[i] <= 'z') || ('A' <= arg[i]
                && arg[i] <= 'Z') || ('0' <= arg[i] && arg[i] <= '9') || arg[i] == '-' || arg[i]
                == '_' || arg[i] == '.' || arg[i] == '/' || arg[i] == '=' || arg[i] == ':')
            ==> word(arg) == arg,
        (exists|i: int|
            0 <= i < arg.len() && (#[trigger] arg[i] == ' ' || arg[i] == '$' || arg[i] == '\''
                || arg[i] == '"' || arg[i] == ';' || arg[i] == '&' || arg[i] == '|' || arg[i] == '*'
                || arg[i] == ',')) ==> word(arg)[0] == '\'' && word(arg).last() == '\'',
{
    reveal_strlit("'");
    if arg.len() == 0 {
        assert(word(arg) =~= seq!['\'', '\'']);
    }
}

} // verus!
