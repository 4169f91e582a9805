//! Paths on the host: joining, and the names that they are made of.
use crate::text;
use vstd::prelude::*;
use vstd::string::*;

verus! {

/// `path` taken relative to `base`: an absolute path replaces it, any other one goes behind it with
/// one separator between the two.
pub open spec fn joined(base: Seq<char>, path: Seq<char>) -> Seq<char> {
    if path.len() > 0 && path[0] == '/' {
        path
    } else if base.len() == 0 || base.last() == '/' {
        base + path
    } else {
        base + "/"@ + path
    }
}

/// Join two paths.
pub fn join(base: &str, path: &str) -> (r: String)
    ensures
        r@ == joined(base@, path@),
{
    let b = text::to_chars(base);
    let p = text::to_chars(path);
    if p.len() > 0 && p[0] == '/' {
        text::own(path)
    } else if b.len() == 0 || b[b.len() - 1] == '/' {
        text::cat2(base, path)
    } else {
        text::cat3(base, "/", path)
    }
}

/// A relative path joined to a directory lies inside it: the result begins with the directory and
/// goes on at a separator.
pub proof fn joining_stays_inside(base: Seq<char>, path: Seq<char>)
    requires
        path.len() > 0,
        path[0] != '/',
    ensures
        text::starts_with(joined(base, path), base),
        base.len() > 0 && base.last() != '/' ==> joined(base, path)[base.len() as int] == '/',
{
    reveal_strlit("/");
    assert(joined(base, path).take(base.len() as int) == base);
}

} // verus!
