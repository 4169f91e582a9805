//! Text as sequences of characters: building, comparing and taking apart strings, and decimal
//! numerals.
use vstd::prelude::*;
use vstd::slice::*;
use vstd::string::*;

verus! {

/// `String::push` appends one character at the end and changes nothing before it.
pub assume_specification[ String::push ](s: &mut String, c: char)
    ensures
        final(s)@ == old(s)@.push(c),
;

/// The characters of each string of a list.
pub open spec fn views(v: Seq<String>) -> Seq<Seq<char>> {
    v.map_values(|s: String| s@)
}

/// The characters of a string, where there is one.
pub open spec fn opt_view(o: Option<String>) -> Option<Seq<char>> {
    match o {
        Some(s) => Some(s@),
        None => None,
    }
}

/// The same string once more, where there is one.
pub fn copy_opt(o: &Option<String>) -> (r: Option<String>)
    ensures
        r == *o,
{
    match o {
        Some(s) => Some(s.clone()),
        None => None,
    }
}

/// The characters of a string, one by one.
pub fn to_chars(s: &str) -> (r: Vec<char>)
    ensures
        r@ == s@,
{
    let mut out: Vec<char> = Vec::new();
    for c in it: s.chars()
        invariant
            it.seq() == s@,
            out@ == s@.take(it.index()),
    {
        out.push(c);
        assert(s@.take(it.index() + 1) == s@.take(it.index()).push(c));
    }
    assert(s@.take(s@.len() as int) == s@);
    out
}

/// The string made of the given characters.
pub fn from_chars(chars: &[char]) -> (r: String)
    ensures
        r@ == chars@,
{
    let mut out = String::new();
    let mut i: usize = 0;
    while i < chars.len()
        invariant
            i <= chars.len(),
            out@ == chars@.take(i as int),
        decreases chars.len() - i,
    {
        out.push(chars[i]);
        assert(chars@.take(i + 1) == chars@.take(i as int).push(chars[i as int]));
        i += 1;
    }
    assert(chars@.take(chars@.len() as int) == chars@);
    out
}

/// Whether two texts have the same characters.
pub fn same(a: &str, b: &str) -> (r: bool)
    ensures
        r == (a@ == b@),
{
    let x = to_chars(a);
    let y = to_chars(b);
    same_chars(&x, &y)
}

/// Whether two character lists are equal.
pub fn same_chars(x: &[char], y: &[char]) -> (r: bool)
    ensures
        r == (x@ == y@),
{
    if x.len() != y.len() {
        return false;
    }
    let mut i: usize = 0;
    while i < x.len()
        invariant
            x.len() == y.len(),
            i <= x.len(),
            x@.take(i as int) == y@.take(i as int),
        decreases x.len() - i,
    {
        if x[i] != y[i] {
            assert(x@[i as int] != y@[i as int]);
            return false;
        }
        assert(x@.take(i + 1) == x@.take(i as int).push(x[i as int]));
        assert(y@.take(i + 1) == y@.take(i as int).push(y[i as int]));
        i += 1;
    }
    assert(x@.take(x@.len() as int) == x@);
    assert(y@.take(y@.len() as int) == y@);
    true
}

/// The same strings once more.
pub fn copy_strings(v: &Vec<String>) -> (r: Vec<String>)
    ensures
        r@ == v@,
{
    let mut out: Vec<String> = Vec::new();
    let mut i: usize = 0;
    while i < v.len()
        invariant
            i <= v.len(),
            out@ == v@.take(i as int),
        decreases v.len() - i,
    {
        out.push(v[i].clone());
        assert(v@.take(i + 1) == v@.take(i as int).push(v@[i as int]));
        i += 1;
    }
    assert(v@.take(v@.len() as int) == v@);
    out
}

/// A string holding the characters of `a`.
pub fn own(a: &str) -> (r: String)
    ensures
        r@ == a@,
{
    String::from_str(a)
}

/// `a` followed by `b`.
pub fn cat2(a: &str, b: &str) -> (r: String)
    ensures
        r@ == a@ + b@,
{
    String::from_str(a).concat(b)
}

/// `a`, `b` and `c`, one after the other.
pub fn cat3(a: &str, b: &str, c: &str) -> (r: String)
    ensures
        r@ == a@ + b@ + c@,
{
    cat2(a, b).concat(c)
}

/// `a`, `b`, `c` and `d`, one after the other.
pub fn cat4(a: &str, b: &str, c: &str, d: &str) -> (r: String)
    ensures
        r@ == a@ + b@ + c@ + d@,
{
    cat3(a, b, c).concat(d)
}

/// Five texts, one after the other.
pub fn cat5(a: &str, b: &str, c: &str, d: &str, e: &str) -> (r: String)
    ensures
        r@ == a@ + b@ + c@ + d@ + e@,
{
    cat4(a, b, c, d).concat(e)
}

/// Six texts, one after the other.
pub fn cat6(a: &str, b: &str, c: &str, d: &str, e: &str, f: &str) -> (r: String)
    ensures
        r@ == a@ + b@ + c@ + d@ + e@ + f@,
{
    cat5(a, b, c, d, e).concat(f)
}

/// Seven texts, one after the other.
pub fn cat7(a: &str, b: &str, c: &str, d: &str, e: &str, f: &str, g: &str) -> (r: String)
    ensures
        r@ == a@ + b@ + c@ + d@ + e@ + f@ + g@,
{
    cat6(a, b, c, d, e, f).concat(g)
}

/// The part of a character list from `from` up to `to`.
pub fn part(chars: &[char], from: usize, to: usize) -> (r: Vec<char>)
    requires
        from <= to <= chars@.len(),
    ensures
        r@ == chars@.subrange(from as int, to as int),
{
    slice_to_vec(slice_subrange(chars, from, to))
}

/// The characters of each list of a list.
pub open spec fn char_views(v: Seq<Vec<char>>) -> Seq<Seq<char>> {
    v.map_values(|c: Vec<char>| c@)
}

/// Adding one list at the end adds its characters at the end.
pub proof fn char_views_push(v: Seq<Vec<char>>, c: Vec<char>)
    ensures
        char_views(v.push(c)) == char_views(v).push(c@),
{
    assert(char_views(v.push(c)) == char_views(v).push(c@));
}

/// Adding one string at the end adds its characters at the end.
pub proof fn views_push(v: Seq<String>, s: String)
    ensures
        views(v.push(s)) == views(v).push(s@),
{
    assert(views(v.push(s)) == views(v).push(s@));
}

// ---------------------------------------------------------------------------
// Searching
// ---------------------------------------------------------------------------

/// `s` begins with `prefix`.
pub open spec fn starts_with(s: Seq<char>, prefix: Seq<char>) -> bool {
    prefix.len() <= s.len() && s.take(prefix.len() as int) == prefix
}

/// Whether a character list begins with another.
pub fn chars_start_with(s: &[char], prefix: &[char]) -> (r: bool)
    ensures
        r == starts_with(s@, prefix@),
{
    if prefix.len() > s.len() {
        return false;
    }
    let head = slice_subrange(s, 0, prefix.len());
    assert(s@.subrange(0, prefix@.len() as int) == s@.take(prefix@.len() as int));
    same_chars(head, prefix)
}

/// Whether a text begins with another.
pub fn begins(s: &str, prefix: &str) -> (r: bool)
    ensures
        r == starts_with(s@, prefix@),
{
    let a = to_chars(s);
    let b = to_chars(prefix);
    chars_start_with(&a, &b)
}

/// `needle` occurs somewhere in `s`.
pub open spec fn holds(s: Seq<char>, needle: Seq<char>) -> bool {
    exists|k: int| 0 <= k && k + needle.len() <= s.len() && #[trigger] s.subrange(
        k,
        k + needle.len(),
    ) == needle
}

/// Whether a text occurs in another.
pub fn includes(s: &str, needle: &str) -> (r: bool)
    ensures
        r == holds(s@, needle@),
{
    let a = to_chars(s);
    let b = to_chars(needle);
    if b.len() > a.len() {
        return false;
    }
    let last: usize = a.len() - b.len();
    let mut k: usize = 0;
    loop
        invariant
            a@ == s@,
            b@ == needle@,
            last + b.len() == a.len(),
            k <= last,
            forall|j: int|
                0 <= j < k ==> #[trigger] a@.subrange(j, j + b@.len()) != b@,
        decreases last - k,
    {
        let here = slice_subrange(a.as_slice(), k, k + b.len());
        if same_chars(here, &b) {
            return true;
        }
        if k == last {
            return false;
        }
        k += 1;
    }
}

/// Whether a character occurs in a text.
pub fn has_char(s: &str, c: char) -> (r: bool)
    ensures
        r == s@.contains(c),
{
    let chars = to_chars(s);
    let mut i: usize = 0;
    while i < chars.len()
        invariant
            chars@ == s@,
            i <= chars.len(),
            forall|k: int| 0 <= k < i ==> chars@[k] != c,
        decreases chars.len() - i,
    {
        if chars[i] == c {
            assert(s@[i as int] == c);
            return true;
        }
        i += 1;
    }
    false
}

/// Add a text at the end of a list.
pub fn push_text(v: &mut Vec<String>, s: &str)
    ensures
        views(final(v)@) == views(old(v)@).push(s@),
{
    let t = own(s);
    proof {
        views_push(v@, t);
    }
    v.push(t);
}

// ---------------------------------------------------------------------------
// Replacing
// ---------------------------------------------------------------------------

/// `s` with every `from` replaced by `to`.
pub open spec fn replaced(s: Seq<char>, from: char, to: char) -> Seq<char> {
    s.map_values(
        |c: char|
            if c == from {
                to
            } else {
                c
            },
    )
}

/// A character list with every `from` replaced by `to`.
pub fn replace_char(s: &[char], from: char, to: char) -> (r: Vec<char>)
    ensures
        r@ == replaced(s@, from, to),
{
    let mut out: Vec<char> = Vec::new();
    let mut i: usize = 0;
    while i < s.len()
        invariant
            i <= s.len(),
            out@ == replaced(s@, from, to).take(i as int),
        decreases s.len() - i,
    {
        let c: char = if s[i] == from {
            to
        } else {
            s[i]
        };
        out.push(c);
        assert(replaced(s@, from, to).take(i + 1) == replaced(s@, from, to).take(i as int).push(c));
        i += 1;
    }
    assert(replaced(s@, from, to).take(s@.len() as int) == replaced(s@, from, to));
    out
}

// ---------------------------------------------------------------------------
// Splitting and joining
// ---------------------------------------------------------------------------

/// Where the first `sep` at or after `i` stands, or the length when there is none.
pub open spec fn next_sep(s: Seq<char>, sep: char, i: int) -> int
    decreases s.len() - i,
{
    if i >= s.len() {
        s.len() as int
    } else if s[i] == sep {
        i
    } else {
        next_sep(s, sep, i + 1)
    }
}

/// The next separator lies between where the search starts and the end.
pub proof fn next_sep_bounds(s: Seq<char>, sep: char, i: int)
    requires
        0 <= i <= s.len(),
    ensures
        i <= next_sep(s, sep, i) <= s.len(),
        next_sep(s, sep, i) < s.len() ==> s[next_sep(s, sep, i)] == sep,
    decreases s.len() - i,
{
    if i < s.len() && s[i] != sep {
        next_sep_bounds(s, sep, i + 1);
    }
}

/// The pieces of `s` from `i` on, between separators: always one more than there are separators.
pub open spec fn pieces(s: Seq<char>, sep: char, i: int) -> Seq<Seq<char>>
    decreases s.len() - i,
    when 0 <= i <= s.len()
    via pieces_decreases
{
    let k = next_sep(s, sep, i);
    if k >= s.len() {
        seq![s.subrange(i, s.len() as int)]
    } else {
        seq![s.subrange(i, k)] + pieces(s, sep, k + 1)
    }
}

#[via_fn]
proof fn pieces_decreases(s: Seq<char>, sep: char, i: int) {
    next_sep_bounds(s, sep, i);
}

/// `s` cut at every separator.
pub open spec fn split(s: Seq<char>, sep: char) -> Seq<Seq<char>> {
    pieces(s, sep, 0)
}

/// Cut a character list at every separator.
pub fn split_chars(s: &[char], sep: char) -> (r: Vec<Vec<char>>)
    ensures
        char_views(r@) == split(s@, sep),
{
    let mut out: Vec<Vec<char>> = Vec::new();
    let mut start: usize = 0;
    let mut i: usize = 0;
    assert(char_views(out@) + pieces(s@, sep, 0) == pieces(s@, sep, 0));
    while i < s.len()
        invariant
            start <= i <= s.len(),
            next_sep(s@, sep, start as int) == next_sep(s@, sep, i as int),
            char_views(out@) + pieces(s@, sep, start as int) == split(s@, sep),
        decreases s.len() - i,
    {
        if s[i] == sep {
            let piece = part(s, start, i);
            proof {
                let tail = pieces(s@, sep, i + 1);
                char_views_push(out@, piece);
                assert(char_views(out@).push(piece@) + tail == char_views(out@) + (seq![piece@]
                    + tail));
            }
            out.push(piece);
            start = i + 1;
        }
        i += 1;
    }
    let piece = part(s, start, s.len());
    proof {
        char_views_push(out@, piece);
        assert(char_views(out@) + seq![piece@] == char_views(out@).push(piece@));
    }
    out.push(piece);
    out
}

/// There is always at least one piece.
pub proof fn pieces_exist(s: Seq<char>, sep: char, i: int)
    requires
        0 <= i <= s.len(),
    ensures
        pieces(s, sep, i).len() >= 1,
{
}

/// A line without the carriage return that it ends with.
pub open spec fn without_return(line: Seq<char>) -> Seq<char> {
    if line.len() > 0 && line.last() == '\r' {
        line.drop_last()
    } else {
        line
    }
}

/// The lines of a text: what stands before each line feed, without a carriage return directly
/// before it, and what follows the last line feed where anything does.
pub open spec fn lines(s: Seq<char>) -> Seq<Seq<char>> {
    let p = split(s, '\n');
    let ended = p.drop_last().map_values(|line: Seq<char>| without_return(line));
    if p.last().len() == 0 {
        ended
    } else {
        ended.push(p.last())
    }
}

/// The lines of a text.
pub fn split_lines(s: &[char]) -> (r: Vec<Vec<char>>)
    ensures
        char_views(r@) == lines(s@),
{
    let p = split_chars(s, '\n');
    proof {
        pieces_exist(s@, '\n', 0);
        assert(char_views(p@).len() == p@.len());
    }
    let ghost all = split(s@, '\n');
    let ghost ended = all.drop_last().map_values(|line: Seq<char>| without_return(line));
    let last: usize = p.len() - 1;
    let mut out: Vec<Vec<char>> = Vec::new();
    let mut i: usize = 0;
    while i < last
        invariant
            char_views(p@) == all,
            last + 1 == p.len(),
            i <= last,
            ended == all.drop_last().map_values(|line: Seq<char>| without_return(line)),
            char_views(out@) == ended.take(i as int),
        decreases last - i,
    {
        let n: usize = p[i].len();
        let line = if n > 0 && p[i][n - 1] == '\r' {
            part(&p[i], 0, n - 1)
        } else {
            part(&p[i], 0, n)
        };
        proof {
            let whole = p@[i as int]@;
            assert(all[i as int] == whole);
            assert(line@ == without_return(whole));
            char_views_push(out@, line);
            assert(ended.take(i + 1) == ended.take(i as int).push(ended[i as int]));
        }
        out.push(line);
        i += 1;
    }
    assert(ended.take(last as int) == ended);
    assert(all.last() == p@[last as int]@);
    if p[last].len() > 0 {
        let line = part(&p[last], 0, p[last].len());
        proof {
            assert(line@ == p@[last as int]@);
            char_views_push(out@, line);
        }
        out.push(line);
    }
    out
}

/// Pieces put together with `sep` between each two.
pub open spec fn joined(parts: Seq<Seq<char>>, sep: Seq<char>) -> Seq<char>
    decreases parts.len(),
{
    if parts.len() == 0 {
        seq![]
    } else if parts.len() == 1 {
        parts[0]
    } else {
        joined(parts.drop_last(), sep) + sep + parts.last()
    }
}

/// Joining goes the same from the front: the first piece, a separator, the rest joined.
pub proof fn joined_from_front(parts: Seq<Seq<char>>, sep: Seq<char>)
    requires
        parts.len() >= 2,
    ensures
        joined(parts, sep) == parts[0] + sep + joined(parts.skip(1), sep),
    decreases parts.len(),
{
    let rest = parts.skip(1);
    assert(rest.last() == parts.last());
    if parts.len() == 2 {
        assert(parts.drop_last() == seq![parts[0]]);
        assert(joined(parts.drop_last(), sep) == parts[0]);
    } else {
        joined_from_front(parts.drop_last(), sep);
        assert(parts.drop_last().skip(1) == rest.drop_last());
        assert(parts[0] + sep + (joined(rest.drop_last(), sep) + sep + rest.last()) == (parts[0]
            + sep + joined(rest.drop_last(), sep)) + sep + parts.last());
    }
}

/// Put character lists together with `sep` between each two.
pub fn join_chars(parts: &[Vec<char>], sep: &str) -> (r: String)
    ensures
        r@ == joined(char_views(parts@), sep@),
{
    let mut out = String::new();
    let mut i: usize = 0;
    let ghost all = char_views(parts@);
    while i < parts.len()
        invariant
            i <= parts.len(),
            all == char_views(parts@),
            out@ == joined(all.take(i as int), sep@),
        decreases parts.len() - i,
    {
        proof {
            assert(all.take(i + 1).drop_last() == all.take(i as int));
            assert(all.take(i + 1).last() == parts@[i as int]@);
        }
        if i > 0 {
            out.append(sep);
        }
        out.append(from_chars(&parts[i]).as_str());
        i += 1;
    }
    assert(all.take(all.len() as int) == all);
    out
}

/// Put strings together with `sep` between each two.
pub fn join(parts: &[String], sep: &str) -> (r: String)
    ensures
        r@ == joined(views(parts@), sep@),
{
    let mut out = String::new();
    let mut i: usize = 0;
    let ghost all = views(parts@);
    while i < parts.len()
        invariant
            i <= parts.len(),
            all == views(parts@),
            out@ == joined(all.take(i as int), sep@),
        decreases parts.len() - i,
    {
        proof {
            assert(all.take(i + 1).drop_last() == all.take(i as int));
            assert(all.take(i + 1).last() == parts@[i as int]@);
        }
        if i > 0 {
            out.append(sep);
        }
        out.append(parts[i].as_str());
        i += 1;
    }
    assert(all.take(all.len() as int) == all);
    out
}

// ---------------------------------------------------------------------------
// Columns
// ---------------------------------------------------------------------------

/// Spaces that fill a column of `width` characters beside a text of `len`.
pub open spec fn filling(len: nat, width: nat) -> Seq<char> {
    Seq::new((if len < width { width - len } else { 0 }) as nat, |i: int| ' ')
}

/// A text with spaces after it up to `width` characters.
pub open spec fn padded(s: Seq<char>, width: nat) -> Seq<char> {
    s + filling(s.len(), width)
}

/// A text with spaces before it up to `width` characters.
pub open spec fn indented(s: Seq<char>, width: nat) -> Seq<char> {
    filling(s.len(), width) + s
}

/// The spaces that fill a column of `width` characters beside a text.
fn fill(s: &str, width: usize) -> (r: String)
    ensures
        r@ == filling(s@.len(), width as nat),
{
    let mut n: usize = to_chars(s).len();
    let mut out = String::new();
    while n < width
        invariant
            s@.len() <= n,
            n <= width || n == s@.len(),
            out@ == filling(s@.len(), n as nat),
        decreases width - n,
    {
        out.push(' ');
        n += 1;
    }
    out
}

/// A text with spaces after it up to `width` characters.
pub fn pad(s: &str, width: usize) -> (r: String)
    ensures
        r@ == padded(s@, width as nat),
{
    let spaces = fill(s, width);
    cat2(s, spaces.as_str())
}

/// A text with spaces before it up to `width` characters.
pub fn indent(s: &str, width: usize) -> (r: String)
    ensures
        r@ == indented(s@, width as nat),
{
    let spaces = fill(s, width);
    cat2(spaces.as_str(), s)
}

// ---------------------------------------------------------------------------
// White space
// ---------------------------------------------------------------------------

/// The characters with Unicode's `White_Space` property, which is what trimming removes.
pub open spec fn is_space(c: char) -> bool {
    ('\u{9}' <= c && c <= '\u{d}') || c == ' ' || c == '\u{85}' || c == '\u{a0}' || c
        == '\u{1680}' || ('\u{2000}' <= c && c <= '\u{200a}') || c == '\u{2028}' || c
        == '\u{2029}' || c == '\u{202f}' || c == '\u{205f}' || c == '\u{3000}'
}

/// Whether a character is white space.
pub fn space(c: char) -> (r: bool)
    ensures
        r == is_space(c),
{
    ('\u{9}' <= c && c <= '\u{d}') || c == ' ' || c == '\u{85}' || c == '\u{a0}' || c
        == '\u{1680}' || ('\u{2000}' <= c && c <= '\u{200a}') || c == '\u{2028}' || c
        == '\u{2029}' || c == '\u{202f}' || c == '\u{205f}' || c == '\u{3000}'
}

/// Nothing but white space, or nothing at all.
pub open spec fn is_blank(s: Seq<char>) -> bool {
    forall|i: int| 0 <= i < s.len() ==> is_space(#[trigger] s[i])
}

/// Whether a text holds nothing but white space.
pub fn blank(s: &str) -> (r: bool)
    ensures
        r == is_blank(s@),
{
    let c = to_chars(s);
    let mut i: usize = 0;
    while i < c.len()
        invariant
            c@ == s@,
            i <= c.len(),
            forall|k: int| 0 <= k < i ==> is_space(#[trigger] c@[k]),
        decreases c.len() - i,
    {
        if !space(c[i]) {
            assert(!is_space(s@[i as int]));
            return false;
        }
        i += 1;
    }
    true
}

/// `s` without the white space it begins with.
pub open spec fn trimmed_start(s: Seq<char>) -> Seq<char>
    decreases s.len(),
{
    if s.len() > 0 && is_space(s[0]) {
        trimmed_start(s.skip(1))
    } else {
        s
    }
}

/// `s` without the white space it ends with.
pub open spec fn trimmed_end(s: Seq<char>) -> Seq<char>
    decreases s.len(),
{
    if s.len() > 0 && is_space(s.last()) {
        trimmed_end(s.drop_last())
    } else {
        s
    }
}

/// `s` without the white space at its two ends.
pub open spec fn trimmed(s: Seq<char>) -> Seq<char> {
    trimmed_end(trimmed_start(s))
}

/// A character list without the white space it begins with.
pub fn trim_start(s: &[char]) -> (r: Vec<char>)
    ensures
        r@ == trimmed_start(s@),
{
    let mut from: usize = 0;
    assert(s@.skip(0) == s@);
    while from < s.len() && space(s[from])
        invariant
            from <= s.len(),
            trimmed_start(s@) == trimmed_start(s@.skip(from as int)),
        decreases s.len() - from,
    {
        assert(s@.skip(from as int).skip(1) == s@.skip(from + 1));
        from += 1;
    }
    assert(s@.subrange(from as int, s@.len() as int) == s@.skip(from as int));
    part(s, from, s.len())
}

/// A character list without the white space it ends with.
pub fn trim_end(s: &[char]) -> (r: Vec<char>)
    ensures
        r@ == trimmed_end(s@),
{
    let mut to: usize = s.len();
    assert(s@.take(s@.len() as int) == s@);
    while to > 0 && space(s[to - 1])
        invariant
            to <= s.len(),
            trimmed_end(s@) == trimmed_end(s@.take(to as int)),
        decreases to,
    {
        assert(s@.take(to as int).drop_last() == s@.take(to - 1));
        to -= 1;
    }
    assert(s@.subrange(0, to as int) == s@.take(to as int));
    part(s, 0, to)
}

/// A character list without the white space at its two ends.
pub fn trim(s: &[char]) -> (r: Vec<char>)
    ensures
        r@ == trimmed(s@),
{
    trim_end(&trim_start(s))
}

/// Where the run of characters other than white space that starts at `i` ends.
pub open spec fn word_end(s: Seq<char>, i: int) -> int
    decreases s.len() - i,
{
    if i >= s.len() || is_space(s[i]) {
        i
    } else {
        word_end(s, i + 1)
    }
}

/// A word ends at or after where it starts, within the text.
pub proof fn word_end_bounds(s: Seq<char>, i: int)
    requires
        0 <= i <= s.len(),
    ensures
        i <= word_end(s, i) <= s.len(),
    decreases s.len() - i,
{
    if i < s.len() && !is_space(s[i]) {
        word_end_bounds(s, i + 1);
    }
}

/// The words of `s` from `i` on: its longest runs without white space.
pub open spec fn words_from(s: Seq<char>, i: int) -> Seq<Seq<char>>
    decreases s.len() - i,
    when 0 <= i <= s.len()
    via words_from_decreases
{
    if i >= s.len() {
        Seq::empty()
    } else if is_space(s[i]) {
        words_from(s, i + 1)
    } else {
        let k = word_end(s, i);
        seq![s.subrange(i, k)] + words_from(s, k)
    }
}

#[via_fn]
proof fn words_from_decreases(s: Seq<char>, i: int) {
    word_end_bounds(s, i);
    if i < s.len() && !is_space(s[i]) {
        word_end_bounds(s, i + 1);
    }
}

/// The words of a text: its longest runs without white space, in order.
pub open spec fn words(s: Seq<char>) -> Seq<Seq<char>> {
    words_from(s, 0)
}

/// The words of a text.
pub fn split_words(s: &[char]) -> (r: Vec<Vec<char>>)
    ensures
        char_views(r@) == words(s@),
{
    let mut out: Vec<Vec<char>> = Vec::new();
    let mut i: usize = 0;
    assert(char_views(out@) + words_from(s@, 0) == words_from(s@, 0));
    while i < s.len()
        invariant
            i <= s.len(),
            char_views(out@) + words_from(s@, i as int) == words(s@),
        decreases s.len() - i,
    {
        if space(s[i]) {
            i += 1;
        } else {
            let start: usize = i;
            while i < s.len() && !space(s[i])
                invariant
                    start <= i <= s.len(),
                    start < s.len(),
                    word_end(s@, start as int) == word_end(s@, i as int),
                    !is_space(s@[start as int]),
                    i == start ==> !is_space(s@[start as int]),
                decreases s.len() - i,
            {
                i += 1;
            }
            let word = part(s, start, i);
            proof {
                let tail = words_from(s@, i as int);
                assert(word_end(s@, start as int) == i);
                assert(words_from(s@, start as int) == seq![word@] + tail);
                char_views_push(out@, word);
                assert(char_views(out@).push(word@) + tail == char_views(out@) + (seq![word@]
                    + tail));
            }
            out.push(word);
        }
    }
    assert(words_from(s@, s@.len() as int) == Seq::<Seq<char>>::empty());
    out
}

// ---------------------------------------------------------------------------
// Decimal numerals
// ---------------------------------------------------------------------------

/// The decimal digit of a number below ten.
pub open spec fn digit(d: nat) -> char {
    (48 + d) as char
}

/// The decimal numeral of `n`, without leading zeros.
pub open spec fn decimal(n: nat) -> Seq<char>
    decreases n,
{
    if n < 10 {
        seq![digit(n)]
    } else {
        decimal(n / 10).push(digit(n % 10))
    }
}

/// The decimal numeral of `n`.
pub fn to_decimal(n: u64) -> (r: String)
    ensures
        r@ == decimal(n as nat),
    decreases n,
{
    if n < 10 {
        let mut out = String::new();
        out.push((48u8 + n as u8) as char);
        assert(out@ == decimal(n as nat));
        out
    } else {
        let mut out = to_decimal(n / 10);
        out.push((48u8 + (n % 10) as u8) as char);
        out
    }
}

/// The decimal numeral of a number too wide for 64 bits.
pub fn to_decimal_wide(n: u128) -> (r: String)
    ensures
        r@ == decimal(n as nat),
    decreases n,
{
    if n < 10 {
        let mut out = String::new();
        out.push((48u8 + n as u8) as char);
        assert(out@ == decimal(n as nat));
        out
    } else {
        let mut out = to_decimal_wide(n / 10);
        out.push((48u8 + (n % 10) as u8) as char);
        out
    }
}

/// The decimal numeral of a signed number: a minus sign before the magnitude when it is negative.
pub open spec fn signed_decimal(n: int) -> Seq<char> {
    if n < 0 {
        "-"@ + decimal((-n) as nat)
    } else {
        decimal(n as nat)
    }
}

/// The decimal numeral of a signed number.
pub fn to_signed_decimal(n: i32) -> (r: String)
    ensures
        r@ == signed_decimal(n as int),
{
    if n < 0 {
        let magnitude: u64 = (0 - n as i64) as u64;
        let digits = to_decimal(magnitude);
        cat2("-", digits.as_str())
    } else {
        to_decimal(n as u64)
    }
}

/// A decimal digit.
pub open spec fn is_digit(c: char) -> bool {
    '0' <= c && c <= '9'
}

/// Only decimal digits.
pub open spec fn all_digits(s: Seq<char>) -> bool {
    forall|i: int| 0 <= i < s.len() ==> is_digit(#[trigger] s[i])
}

/// The number that a sequence of digits stands for.
pub open spec fn digits_value(s: Seq<char>) -> nat
    decreases s.len(),
{
    if s.len() == 0 {
        0
    } else {
        digits_value(s.drop_last()) * 10 + (s.last() as u32 - 48) as nat
    }
}

/// The number that an unsigned numeral stands for: digits, at least one, with a plus sign before
/// them or none.
pub open spec fn numeral(s: Seq<char>) -> Option<nat> {
    let digits = if s.len() > 0 && s[0] == '+' {
        s.skip(1)
    } else {
        s
    };
    if digits.len() > 0 && all_digits(digits) {
        Some(digits_value(digits))
    } else {
        None
    }
}

/// The number an unsigned numeral stands for, when it is one that is at most `max`.
pub open spec fn numeral_up_to(s: Seq<char>, max: nat) -> Option<nat> {
    match numeral(s) {
        Some(n) => if n <= max {
            Some(n)
        } else {
            None
        },
        None => None,
    }
}

/// A shorter run of digits stands for no larger a number.
pub proof fn digits_value_grows(s: Seq<char>, k: int)
    requires
        all_digits(s),
        0 <= k <= s.len(),
    ensures
        digits_value(s.take(k)) <= digits_value(s),
    decreases s.len() - k,
{
    if k < s.len() {
        assert(s.take(k + 1).drop_last() == s.take(k));
        assert(s.take(k + 1).last() == s[k]);
        assert(is_digit(s[k]));
        digits_value_grows(s, k + 1);
    } else {
        assert(s.take(k) == s);
    }
}

/// The numeral of a number stands for that number.
pub proof fn decimal_round_trip(n: nat)
    ensures
        decimal(n).len() > 0,
        all_digits(decimal(n)),
        digits_value(decimal(n)) == n,
    decreases n,
{
    if n < 10 {
        assert(decimal(n).drop_last() == Seq::<char>::empty());
        assert(digits_value(Seq::<char>::empty()) == 0);
    } else {
        decimal_round_trip(n / 10);
        assert(decimal(n).drop_last() == decimal(n / 10));
    }
}

/// Whether every character is a decimal digit.
pub fn only_digits(s: &[char]) -> (r: bool)
    ensures
        r == all_digits(s@),
{
    let mut i: usize = 0;
    while i < s.len()
        invariant
            i <= s.len(),
            forall|k: int| 0 <= k < i ==> is_digit(#[trigger] s@[k]),
        decreases s.len() - i,
    {
        if !('0' <= s[i] && s[i] <= '9') {
            assert(!is_digit(s@[i as int]));
            return false;
        }
        i += 1;
    }
    true
}

/// The number an unsigned numeral stands for, when it is one that fits in 64 bits.
pub fn parse_u64(s: &[char]) -> (r: Option<u64>)
    ensures
        match (r, numeral_up_to(s@, u64::MAX as nat)) {
            (Some(n), Some(expected)) => n == expected,
            (None, None) => true,
            _ => false,
        },
{
    let from: usize = if s.len() > 0 && s[0] == '+' {
        1
    } else {
        0
    };
    let digits = part(s, from, s.len());
    proof {
        if from == 1 {
            assert(digits@ == s@.skip(1));
        } else {
            assert(digits@ == s@);
        }
    }
    if digits.len() == 0 || !only_digits(&digits) {
        return None;
    }
    let mut value: u64 = 0;
    let mut i: usize = 0;
    while i < digits.len()
        invariant
            i <= digits.len(),
            all_digits(digits@),
            value == digits_value(digits@.take(i as int)),
            numeral(s@) == Some(digits_value(digits@)),
        decreases digits.len() - i,
    {
        proof {
            assert(is_digit(digits@[i as int]));
            assert(digits@.take(i + 1).drop_last() == digits@.take(i as int));
            digits_value_grows(digits@, i + 1);
        }
        let d: u64 = (digits[i] as u32 - 48) as u64;
        if value > (u64::MAX - d) / 10 {
            assert(value * 10 + d > u64::MAX);
            return None;
        }
        value = value * 10 + d;
        i += 1;
    }
    assert(digits@.take(digits@.len() as int) == digits@);
    Some(value)
}

/// The number an unsigned numeral stands for, when it is one that fits in 32 bits.
pub fn parse_u32(s: &[char]) -> (r: Option<u32>)
    ensures
        match (r, numeral_up_to(s@, u32::MAX as nat)) {
            (Some(n), Some(expected)) => n == expected,
            (None, None) => true,
            _ => false,
        },
{
    match parse_u64(s) {
        Some(n) => if n <= 0xffff_ffff {
            Some(n as u32)
        } else {
            None
        },
        None => None,
    }
}

/// The number that a signed numeral stands for: an unsigned numeral, or digits after a minus sign.
pub open spec fn signed_numeral(s: Seq<char>) -> Option<int> {
    if s.len() > 0 && s[0] == '-' {
        if s.len() > 1 && all_digits(s.skip(1)) {
            Some(-(digits_value(s.skip(1)) as int))
        } else {
            None
        }
    } else {
        match numeral(s) {
            Some(n) => Some(n as int),
            None => None,
        }
    }
}

/// The number a signed numeral stands for, when it is one that fits in 32 bits.
pub open spec fn numeral_i32(s: Seq<char>) -> Option<i32> {
    match signed_numeral(s) {
        Some(n) => if i32::MIN <= n <= i32::MAX {
            Some(n as i32)
        } else {
            None
        },
        None => None,
    }
}

/// The number a signed numeral stands for, when it is one that fits in 32 bits.
pub fn parse_i32(s: &[char]) -> (r: Option<i32>)
    ensures
        r == numeral_i32(s@),
{
    if s.len() > 0 && s[0] == '-' {
        let digits = part(s, 1, s.len());
        assert(digits@ == s@.skip(1));
        if digits.len() == 0 || !only_digits(&digits) {
            return None;
        }
        assert(digits@[0] != '+') by {
            assert(is_digit(digits@[0]));
        }
        match parse_u64(&digits) {
            Some(n) => if n <= 0x8000_0000 {
                Some((0 - n as i64) as i32)
            } else {
                None
            },
            None => None,
        }
    } else {
        match parse_u64(s) {
            Some(n) => if n <= 0x7fff_ffff {
                Some(n as i32)
            } else {
                None
            },
            None => None,
        }
    }
}

// ---------------------------------------------------------------------------
// Letter case
// ---------------------------------------------------------------------------

/// What `str::to_lowercase` gives for a text.
pub uninterp spec fn lowercase(s: Seq<char>) -> Seq<char>;

/// The lower-case form of an ASCII letter; any other character stays as it is.
pub open spec fn ascii_lower(c: char) -> char {
    if 'A' <= c && c <= 'Z' {
        (c as u32 + 32) as char
    } else {
        c
    }
}

/// A text with its ASCII letters in lower case, and every other character as it is.
pub open spec fn ascii_lowered(s: Seq<char>) -> Seq<char> {
    s.map_values(|c: char| ascii_lower(c))
}

/// The form in which texts are compared without regard to case: in lower case, whatever the case of
/// the ASCII letters was.
pub open spec fn folded(s: Seq<char>) -> Seq<char> {
    lowercase(ascii_lowered(s))
}

/// `str::to_lowercase`: the lower-case equivalent of a text under Unicode's rules, a function of
/// the text alone. An ASCII letter has the same lower-case equivalent in either case, and counts as
/// a letter in either, which is all that a capital sigma next to it goes by; so it makes no
/// difference whether the ASCII letters are in lower case already. On a text of ASCII characters it
/// maps each letter to its lower-case form and leaves every other character as it is.
#[verifier::external_body]
pub(crate) fn to_lowercase(s: &str) -> (r: String)
    ensures
        r@ == lowercase(s@),
        r@ == folded(s@),
        vstd::utf8::is_ascii_chars(s@) ==> r@ == ascii_lowered(s@),
{
    s.to_lowercase()
}

// ---------------------------------------------------------------------------
// Debug forms
// ---------------------------------------------------------------------------

/// How the `Debug` format shows a character: in single quotes, with escapes where they are needed.
pub uninterp spec fn debug_char(c: char) -> Seq<char>;

/// The `Debug` form of a `char`, as `format!` writes it: a function of the character alone.
#[verifier::external_body]
pub(crate) fn format_debug_char(c: char) -> (r: String)
    ensures
        r@ == debug_char(c),
{
    format!("{:?}", c)
}

/// How the `Debug` format shows a text: in double quotes, with escapes where they are needed.
pub uninterp spec fn debug_text(s: Seq<char>) -> Seq<char>;

/// The `Debug` form of a `str`, as `format!` writes it: a function of the text alone.
#[verifier::external_body]
pub(crate) fn format_debug_text(s: &str) -> (r: String)
    ensures
        r@ == debug_text(s@),
{
    format!("{:?}", s)
}

/// What `String::from_utf8_lossy` makes of bytes: valid UTF-8 as it is, anything else replaced.
pub uninterp spec fn lossy(b: Seq<u8>) -> Seq<char>;

/// `String::from_utf8_lossy`: the text of the bytes, a function of the bytes alone, which for valid
/// UTF-8 is the text that they encode.
#[verifier::external_body]
pub(crate) fn from_utf8_lossy(b: &[u8]) -> (r: String)
    ensures
        r@ == lossy(b@),
        vstd::utf8::valid_utf8(b@) ==> r@ == vstd::utf8::decode_utf8(b@),
{
    String::from_utf8_lossy(b).into_owned()
}

/// A number reads back from its numeral, and two numbers never share one.
pub proof fn numerals_read_back(n: nat, m: nat)
    ensures
        numeral(decimal(n)) == Some(n),
        decimal(n) == decimal(m) ==> n == m,
        forall|i: int|
            0 <= i < decimal(n).len() ==> '0' <= #[trigger] decimal(n)[i] && decimal(n)[i] <= '9',
{
    decimal_round_trip(n);
    decimal_round_trip(m);
    assert(is_digit(decimal(n)[0]));
    assert forall|i: int| 0 <= i < decimal(n).len() implies '0' <= #[trigger] decimal(n)[i]
        && decimal(n)[i] <= '9' by {
        assert(is_digit(decimal(n)[i]));
    }
}

proof fn next_sep_is_first(s: Seq<char>, sep: char, i: int, n: int)
    requires
        0 <= i <= n <= s.len(),
        n < s.len() ==> s[n] == sep,
        forall|k: int| i <= k < n ==> #[trigger] s[k] != sep,
    ensures
        next_sep(s, sep, i) == n,
    decreases n - i,
{
    if i < n {
        next_sep_is_first(s, sep, i + 1, n);
    }
}

proof fn next_seps_agree(all: Seq<char>, rest: Seq<char>, sep: char, at: int, i: int)
    requires
        0 <= at,
        all.len() == at + rest.len(),
        forall|k: int| 0 <= k < rest.len() ==> #[trigger] rest[k] == all[at + k],
        0 <= i <= rest.len(),
    ensures
        next_sep(all, sep, at + i) == at + next_sep(rest, sep, i),
    decreases rest.len() - i,
{
    if i < rest.len() && rest[i] != sep {
        next_seps_agree(all, rest, sep, at, i + 1);
    }
}

proof fn pieces_agree(all: Seq<char>, rest: Seq<char>, sep: char, at: int, i: int)
    requires
        0 <= at,
        all.len() == at + rest.len(),
        forall|k: int| 0 <= k < rest.len() ==> #[trigger] rest[k] == all[at + k],
        0 <= i <= rest.len(),
    ensures
        pieces(all, sep, at + i) == pieces(rest, sep, i),
    decreases rest.len() - i,
{
    next_seps_agree(all, rest, sep, at, i);
    next_sep_bounds(rest, sep, i);
    let k = next_sep(rest, sep, i);
    assert(all.subrange(at + i, at + k) =~= rest.subrange(i, k));
    if k < rest.len() {
        pieces_agree(all, rest, sep, at, k + 1);
    }
}

/// Splitting goes from the front: what stands before the first separator is the first piece, and the
/// others are the pieces of what follows. A text without a separator is its only piece.
pub proof fn splits_at_the_first_separator(first: Seq<char>, sep: char, rest: Seq<char>)
    requires
        !first.contains(sep),
    ensures
        split(first + seq![sep] + rest, sep) == seq![first] + split(rest, sep),
        split(first, sep) == seq![first],
{
    let all = first + seq![sep] + rest;
    let n = first.len() as int;
    assert forall|k: int| 0 <= k < n implies #[trigger] first[k] != sep by {
        assert(first.contains(first[k]));
    }
    next_sep_is_first(all, sep, 0, n);
    next_sep_is_first(first, sep, 0, n);
    pieces_agree(all, rest, sep, n + 1, 0);
    assert(all.subrange(0, n) =~= first);
    assert(first.subrange(0, n) =~= first);
}

proof fn next_seps_before_the_last(all: Seq<char>, front: Seq<char>, sep: char, i: int)
    requires
        all.len() > front.len(),
        all[front.len() as int] == sep,
        forall|k: int| 0 <= k < front.len() ==> #[trigger] front[k] == all[k],
        0 <= i <= front.len(),
    ensures
        next_sep(all, sep, i) == next_sep(front, sep, i),
    decreases front.len() - i,
{
    if i < front.len() && front[i] != sep {
        next_seps_before_the_last(all, front, sep, i + 1);
    }
}

proof fn pieces_before_the_last(front: Seq<char>, sep: char, last: Seq<char>, i: int)
    requires
        !last.contains(sep),
        0 <= i <= front.len(),
    ensures
        pieces(front + seq![sep] + last, sep, i) == pieces(front, sep, i).push(last),
    decreases front.len() - i,
{
    let all = front + seq![sep] + last;
    let n = front.len() as int;
    next_seps_before_the_last(all, front, sep, i);
    next_sep_bounds(front, sep, i);
    let k = next_sep(front, sep, i);
    assert(all.subrange(i, k) =~= front.subrange(i, k));
    if k < n {
        pieces_before_the_last(front, sep, last, k + 1);
        assert(seq![front.subrange(i, k)] + pieces(front, sep, k + 1).push(last) =~= (seq![
            front.subrange(i, k),
        ] + pieces(front, sep, k + 1)).push(last));
    } else {
        splits_at_the_first_separator(last, sep, last);
        pieces_agree(all, last, sep, n + 1, 0);
        assert(pieces(all, sep, n + 1) == seq![last]);
        assert(seq![front.subrange(i, n)] + seq![last] =~= seq![front.subrange(i, n)].push(last));
    }
}

/// Splitting undoes joining, for pieces that do not hold the separator.
pub proof fn splitting_undoes_joining(parts: Seq<Seq<char>>, sep: char)
    requires
        parts.len() > 0,
        forall|i: int| 0 <= i < parts.len() ==> !(#[trigger] parts[i]).contains(sep),
    ensures
        split(joined(parts, seq![sep]), sep) == parts,
    decreases parts.len(),
{
    if parts.len() == 1 {
        splits_at_the_first_separator(parts[0], sep, parts[0]);
        assert(seq![parts[0]] =~= parts);
    } else {
        let before = parts.drop_last();
        splitting_undoes_joining(before, sep);
        pieces_before_the_last(joined(before, seq![sep]), sep, parts.last(), 0);
        assert(before.push(parts.last()) =~= parts);
    }
}

/// The lines of a text are read from its front: what stands before the first line feed is the first
/// line, without the carriage return that may stand there, and the others are those of what follows.
/// A text without a line feed is its only line, unless it is empty.
pub proof fn lines_are_read_from_the_front(first: Seq<char>, rest: Seq<char>)
    requires
        !first.contains('\n'),
    ensures
        lines(first + seq!['\n'] + rest) == seq![
            if first.len() > 0 && first.last() == '\r' {
                first.drop_last()
            } else {
                first
            },
        ] + lines(rest),
        lines(first) == (if first.len() == 0 {
            Seq::empty()
        } else {
            seq![first]
        }),
{
    splits_at_the_first_separator(first, '\n', rest);
    let strip = |line: Seq<char>| without_return(line);
    let tail = split(rest, '\n');
    let whole = seq![first] + tail;
    pieces_exist(rest, '\n', 0);
    assert(whole.last() == tail.last());
    assert(whole.drop_last().map_values(strip) =~= seq![strip(first)] + tail.drop_last().map_values(
        strip,
    ));
    assert(seq![first].drop_last().map_values(strip) =~= Seq::empty());
    if tail.last().len() > 0 {
        assert((seq![strip(first)] + tail.drop_last().map_values(strip)).push(tail.last()) =~= seq![
            strip(first),
        ] + tail.drop_last().map_values(strip).push(tail.last()));
    }
    assert(Seq::<Seq<char>>::empty().push(first) =~= seq![first]);
}

/// Trimming takes white space from the two ends and nothing else.
pub proof fn trimming_takes_white_space(s: Seq<char>)
    ensures
        trimmed(s).len() > 0 ==> !is_space(trimmed(s)[0]) && !is_space(trimmed(s).last()),
        trimmed(s).len() == 0 <==> is_blank(s),
        exists|before: Seq<char>, after: Seq<char>|
            #![trigger before + trimmed(s) + after]
            is_blank(before) && is_blank(after) && s == before + trimmed(s) + after,
        is_blank(seq![' ', '\t', '\n', '\r']),
{
    let (before, middle) = trimming_the_start(s);
    let after = trimming_the_end(middle);
    assert(s =~= before + trimmed(s) + after);
    if is_blank(s) {
        if trimmed(s).len() > 0 {
            let c = trimmed(s)[0];
            assert(s[before.len() as int] == c);
        }
    } else {
        let k = choose|k: int| 0 <= k < s.len() && !is_space(#[trigger] s[k]);
        if trimmed(s).len() == 0 {
            if k < before.len() {
                assert(s[k] == before[k]);
            } else {
                assert(s[k] == after[k - before.len()]);
            }
        }
    }
    if trimmed(s).len() > 0 {
        assert(middle.len() > 0);
        assert(trimmed(s)[0] == middle[0]);
    }
}

proof fn trimming_the_start(s: Seq<char>) -> (r: (Seq<char>, Seq<char>))
    ensures
        r.1 == trimmed_start(s),
        is_blank(r.0),
        s == r.0 + r.1,
        r.1.len() > 0 ==> !is_space(r.1[0]),
    decreases s.len(),
{
    if s.len() > 0 && is_space(s[0]) {
        let (before, middle) = trimming_the_start(s.skip(1));
        let more = seq![s[0]] + before;
        assert(s =~= seq![s[0]] + s.skip(1));
        assert(seq![s[0]] + (before + middle) =~= more + middle);
        assert forall|i: int| 0 <= i < more.len() implies is_space(#[trigger] more[i]) by {
            if i > 0 {
                assert(more[i] == before[i - 1]);
            }
        }
        (more, middle)
    } else {
        assert(s =~= Seq::<char>::empty() + s);
        (Seq::empty(), s)
    }
}

proof fn trimming_the_end(s: Seq<char>) -> (after: Seq<char>)
    ensures
        is_blank(after),
        s == trimmed_end(s) + after,
        trimmed_end(s).len() > 0 ==> !is_space(trimmed_end(s).last()),
    decreases s.len(),
{
    if s.len() > 0 && is_space(s.last()) {
        let after = trimming_the_end(s.drop_last());
        let more = after.push(s.last());
        let kept = trimmed_end(s.drop_last());
        assert(s =~= s.drop_last().push(s.last()));
        assert((kept + after).push(s.last()) =~= kept + more);
        assert forall|i: int| 0 <= i < more.len() implies is_space(#[trigger] more[i]) by {
            if i < after.len() {
                assert(more[i] == after[i]);
            }
        }
        more
    } else {
        assert(s =~= s + Seq::<char>::empty());
        Seq::empty()
    }
}

/// A text that neither begins nor ends with white space is what trimming leaves of it.
pub proof fn trimmed_texts_stay(s: Seq<char>)
    requires
        s.len() > 0 ==> !is_space(s[0]) && !is_space(s.last()),
    ensures
        trimmed(s) == s,
{
}

/// A text in a column keeps its characters, and only spaces are added, as many as the column has left.
pub proof fn columns_are_filled_with_spaces(s: Seq<char>, width: nat)
    ensures
        padded(s, width).len() == indented(s, width).len(),
        padded(s, width).len() == (if s.len() < width {
            width
        } else {
            s.len()
        }),
        padded(s, width).take(s.len() as int) == s,
        forall|i: int| s.len() <= i < padded(s, width).len() ==> #[trigger] padded(s, width)[i] == ' ',
        indented(s, width).skip(indented(s, width).len() - s.len()) == s,
        forall|i: int|
            0 <= i < indented(s, width).len() - s.len() ==> #[trigger] indented(s, width)[i] == ' ',
{
    assert(padded(s, width).take(s.len() as int) =~= s);
    assert(indented(s, width).skip(indented(s, width).len() - s.len()) =~= s);
}

/// A signed number reads back from its numeral.
pub proof fn signed_numerals_read_back(n: i32)
    ensures
        numeral_i32(signed_decimal(n as int)) == Some(n),
        n < 0 ==> signed_decimal(n as int)[0] == '-',
        n >= 0 ==> signed_decimal(n as int) == decimal(n as nat),
{
    reveal_strlit("-");
    if n < 0 {
        let m = (-(n as int)) as nat;
        decimal_round_trip(m);
        assert(signed_decimal(n as int).skip(1) =~= decimal(m));
    } else {
        numerals_read_back(n as nat, 0);
        assert('0' <= decimal(n as nat)[0]);
    }
}

/// What it is to begin with a text, to hold it, and to have a character replaced.
pub proof fn texts_hold_their_parts(
    before: Seq<char>,
    part: Seq<char>,
    after: Seq<char>,
    from: char,
    to: char,
)
    ensures
        starts_with(part + after, part),
        holds(before + part + after, part),
        starts_with(before, part) ==> holds(before, part),
        holds(before, part) ==> part.len() <= before.len(),
        replaced(before, from, to).len() == before.len(),
        forall|i: int|
            0 <= i < before.len() ==> #[trigger] replaced(before, from, to)[i] == (if before[i]
                == from {
                to
            } else {
                before[i]
            }),
{
    assert((part + after).take(part.len() as int) =~= part);
    let all = before + part + after;
    let k = before.len() as int;
    assert(all.subrange(k, k + part.len()) =~= part);
    if starts_with(before, part) {
        assert(before.subrange(0, 0int + part.len()) =~= before.take(part.len() as int));
    }
}

proof fn word_ends_at(s: Seq<char>, i: int, n: int)
    requires
        0 <= i <= n <= s.len(),
        n < s.len() ==> is_space(s[n]),
        forall|k: int| i <= k < n ==> !is_space(#[trigger] s[k]),
    ensures
        word_end(s, i) == n,
    decreases n - i,
{
    if i < n {
        word_ends_at(s, i + 1, n);
    }
}

proof fn word_ends_agree(all: Seq<char>, rest: Seq<char>, at: int, i: int)
    requires
        0 <= at,
        all.len() == at + rest.len(),
        forall|k: int| 0 <= k < rest.len() ==> #[trigger] rest[k] == all[at + k],
        0 <= i <= rest.len(),
    ensures
        word_end(all, at + i) == at + word_end(rest, i),
    decreases rest.len() - i,
{
    if i < rest.len() && !is_space(rest[i]) {
        word_ends_agree(all, rest, at, i + 1);
    }
}

proof fn words_agree(all: Seq<char>, rest: Seq<char>, at: int, i: int)
    requires
        0 <= at,
        all.len() == at + rest.len(),
        forall|k: int| 0 <= k < rest.len() ==> #[trigger] rest[k] == all[at + k],
        0 <= i <= rest.len(),
    ensures
        words_from(all, at + i) == words_from(rest, i),
    decreases rest.len() - i,
{
    if i < rest.len() {
        if is_space(rest[i]) {
            words_agree(all, rest, at, i + 1);
        } else {
            word_end_bounds(rest, i + 1);
            word_ends_agree(all, rest, at, i);
            let k = word_end(rest, i);
            assert(all.subrange(at + i, at + k) =~= rest.subrange(i, k));
            words_agree(all, rest, at, k);
        }
    }
}

/// The words of a text are read from its front: white space in front counts for nothing, and what
/// stands before the first white space is the first word. The others are those of what follows.
pub proof fn words_are_read_from_the_front(word: Seq<char>, space: char, rest: Seq<char>)
    requires
        word.len() > 0,
        forall|i: int| 0 <= i < word.len() ==> !is_space(#[trigger] word[i]),
        is_space(space),
    ensures
        words(word + seq![space] + rest) == seq![word] + words(rest),
        words(seq![space] + rest) == words(rest),
        words(word) == seq![word],
        words(Seq::empty()).len() == 0,
{
    let all = word + seq![space] + rest;
    let n = word.len() as int;
    assert forall|k: int| 0 <= k < n implies !is_space(#[trigger] all[k]) by {
        assert(all[k] == word[k]);
    }
    word_ends_at(all, 0, n);
    word_ends_at(word, 0, n);
    assert(all.subrange(0, n) =~= word);
    assert(word.subrange(0, n) =~= word);
    assert(!is_space(all[0]));
    words_agree(all, rest, n + 1, 0);
    assert(words_from(all, n) == words_from(all, n + 1));
    let behind = seq![space] + rest;
    words_agree(behind, rest, 1, 0);
    assert(words_from(word, n) =~= Seq::empty());
    assert(seq![word] + Seq::<Seq<char>>::empty() =~= seq![word]);
}

} // verus!
