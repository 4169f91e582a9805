//! Lexical resolution of paths: segments in, plain names out, without looking at any file.
use crate::text;
use vstd::prelude::*;

verus! {

/// One more segment of a path: nothing and `.` stay where they are, `..` goes up one unless that is
/// the top already, anything else goes down.
pub open spec fn step(parts: Seq<Seq<char>>, segment: Seq<char>) -> Seq<Seq<char>> {
    if segment == Seq::<char>::empty() || segment == seq!['.'] {
        parts
    } else if segment == seq!['.', '.'] {
        if parts.len() > 0 {
            parts.drop_last()
        } else {
            parts
        }
    } else {
        parts.push(segment)
    }
}

/// The names that are left of a path's segments.
pub open spec fn resolved(segments: Seq<Seq<char>>) -> Seq<Seq<char>>
    decreases segments.len(),
{
    if segments.len() == 0 {
        seq![]
    } else {
        step(resolved(segments.drop_last()), segments.last())
    }
}

fn is_dot(segment: &Vec<char>) -> (r: bool)
    ensures
        r == (segment@ == seq!['.']),
{
    let r: bool = segment.len() == 1 && segment[0] == '.';
    assert(r ==> segment@ =~= seq!['.']);
    assert(segment@ == seq!['.'] ==> segment@.len() == 1 && segment@[0] == '.');
    r
}

fn is_dotdot(segment: &Vec<char>) -> (r: bool)
    ensures
        r == (segment@ == seq!['.', '.']),
{
    let r: bool = segment.len() == 2 && segment[0] == '.' && segment[1] == '.';
    assert(r ==> segment@ =~= seq!['.', '.']);
    assert(segment@ == seq!['.', '.'] ==> segment@.len() == 2 && segment@[0] == '.' && segment@[1]
        == '.');
    r
}

/// The names that are left of a path's segments.
pub fn resolve_segments(segments: &Vec<Vec<char>>) -> (r: Vec<Vec<char>>)
    ensures
        text::char_views(r@) == resolved(text::char_views(segments@)),
{
    let ghost all = text::char_views(segments@);
    let mut parts: Vec<Vec<char>> = Vec::new();
    let mut i: usize = 0;
    assert(text::char_views(parts@) == Seq::<Seq<char>>::empty());
    while i < segments.len()
        invariant
            i <= segments.len(),
            all == text::char_views(segments@),
            text::char_views(parts@) == resolved(all.take(i as int)),
        decreases segments.len() - i,
    {
        let segment: &Vec<char> = &segments[i];
        proof {
            assert(all.take(i + 1).drop_last() == all.take(i as int));
            assert(all.take(i + 1).last() == segment@);
        }
        let dot: bool = is_dot(segment);
        let dotdot: bool = is_dotdot(segment);
        assert(segment@.len() == 0 ==> segment@ =~= Seq::<char>::empty());
        let ghost before = parts@;
        if segment.len() == 0 || dot {
        } else if dotdot {
            if parts.len() > 0 {
                parts.pop();
                assert(text::char_views(parts@) == text::char_views(before).drop_last());
            }
        } else {
            let name = text::part(segment, 0, segment.len());
            assert(name@ == segment@);
            parts.push(name);
            proof {
                text::char_views_push(before, name);
            }
        }
        i += 1;
    }
    assert(all.take(all.len() as int) == all);
    parts
}

// ---------------------------------------------------------------------------
// Laws
// ---------------------------------------------------------------------------

/// A plain name: not empty, not `.` and not `..`.
pub open spec fn is_name(segment: Seq<char>) -> bool {
    segment != Seq::<char>::empty() && segment != seq!['.'] && segment != seq!['.', '.']
}

/// Whether a segment is a plain name.
pub fn names(segment: &Vec<char>) -> (r: bool)
    ensures
        r == is_name(segment@),
{
    assert(segment@.len() == 0 ==> segment@ =~= Seq::<char>::empty());
    segment.len() > 0 && !is_dot(segment) && !is_dotdot(segment)
}

/// Resolution leaves nothing that could still climb: only plain names remain, whatever the path
/// held.
pub proof fn resolution_leaves_plain_names(segments: Seq<Seq<char>>)
    ensures
        forall|i: int| 0 <= i < resolved(segments).len() ==> is_name(#[trigger] resolved(segments)[i]),
    decreases segments.len(),
{
    if segments.len() > 0 {
        resolution_leaves_plain_names(segments.drop_last());
        let before = resolved(segments.drop_last());
        let after = resolved(segments);
        assert forall|i: int| 0 <= i < after.len() implies is_name(#[trigger] after[i]) by {
            if i < before.len() {
                assert(is_name(before[i]));
            }
        }
    }
}

/// `..` above the top stays at the top: leading ones change nothing.
pub proof fn traversal_is_clamped(segments: Seq<Seq<char>>)
    ensures
        resolved(seq![seq!['.', '.']] + segments) == resolved(segments),
    decreases segments.len(),
{
    let climbing = seq![seq!['.', '.']] + segments;
    if segments.len() == 0 {
        assert(climbing.drop_last() == Seq::<Seq<char>>::empty());
        assert(climbing.last() == seq!['.', '.']);
        assert(segments == Seq::<Seq<char>>::empty());
        assert(seq!['.', '.'][1] == '.');
        assert(seq!['.', '.'].len() == 2 && seq!['.'].len() == 1);
        assert(resolved(climbing.drop_last()) == Seq::<Seq<char>>::empty());
    } else {
        traversal_is_clamped(segments.drop_last());
        assert(climbing.drop_last() == seq![seq!['.', '.']] + segments.drop_last());
        assert(climbing.last() == segments.last());
    }
}

/// Going down into a plain name and up again comes to the same place.
pub proof fn down_and_up_cancels(before: Seq<Seq<char>>, name: Seq<char>, after: Seq<Seq<char>>)
    requires
        is_name(name),
    ensures
        resolved(before + seq![name, seq!['.', '.']] + after) == resolved(before + after),
    decreases after.len(),
{
    let long = before + seq![name, seq!['.', '.']] + after;
    if after.len() == 0 {
        assert(before + after == before);
        assert(long.drop_last() == before.push(name));
        assert(long.last() == seq!['.', '.']);
        assert(before.push(name).drop_last() == before);
        assert(resolved(before.push(name)) == resolved(before).push(name));
        assert(resolved(before).push(name).drop_last() == resolved(before));
    } else {
        down_and_up_cancels(before, name, after.drop_last());
        assert(long.drop_last() == before + seq![name, seq!['.', '.']] + after.drop_last());
        assert(long.last() == after.last());
        assert((before + after).drop_last() == before + after.drop_last());
        assert((before + after).last() == after.last());
    }
}

/// `..` meets the top somewhere on the way through these segments.
pub open spec fn climbs(segments: Seq<Seq<char>>) -> bool {
    exists|k: int|
        0 <= k < segments.len() && #[trigger] segments[k] == seq!['.', '.'] && resolved(
            segments.take(k),
        ).len() == 0
}

/// Whether `..` meets the top somewhere on the way through these segments.
pub fn climbs_out(segments: &Vec<Vec<char>>) -> (r: bool)
    ensures
        r == climbs(text::char_views(segments@)),
{
    let ghost all = text::char_views(segments@);
    let mut depth: usize = 0;
    let mut i: usize = 0;
    while i < segments.len()
        invariant
            i <= segments.len(),
            depth <= i,
            all == text::char_views(segments@),
            depth == resolved(all.take(i as int)).len(),
            forall|k: int|
                0 <= k < i && #[trigger] all[k] == seq!['.', '.'] ==> resolved(all.take(k)).len()
                    > 0,
        decreases segments.len() - i,
    {
        let segment: &Vec<char> = &segments[i];
        proof {
            assert(all[i as int] == segment@);
            assert(all.take(i + 1).drop_last() == all.take(i as int));
            assert(all.take(i + 1).last() == segment@);
            assert(segment@.len() == 0 ==> segment@ =~= Seq::<char>::empty());
        }
        let dot: bool = is_dot(segment);
        if is_dotdot(segment) {
            if depth == 0 {
                return true;
            }
            assert(seq!['.', '.'].len() == 2 && seq!['.'].len() == 1);
            depth -= 1;
        } else if segment.len() > 0 && !dot {
            depth += 1;
        }
        i += 1;
    }
    false
}

/// Segments that never climb out resolve the same below any plain name.
pub proof fn resolution_below_a_name(name: Seq<char>, segments: Seq<Seq<char>>)
    requires
        is_name(name),
        !climbs(segments),
    ensures
        resolved(seq![name] + segments) == seq![name] + resolved(segments),
    decreases segments.len(),
{
    let whole = seq![name] + segments;
    if segments.len() == 0 {
        assert(whole.drop_last() == Seq::<Seq<char>>::empty());
        assert(whole.last() == name);
        assert(resolved(whole.drop_last()) == Seq::<Seq<char>>::empty());
        assert(resolved(whole) == Seq::<Seq<char>>::empty().push(name));
        assert(resolved(segments) == Seq::<Seq<char>>::empty());
        assert(seq![name] + Seq::<Seq<char>>::empty() == Seq::<Seq<char>>::empty().push(name));
    } else {
        let before = segments.drop_last();
        assert(!climbs(before)) by {
            if climbs(before) {
                let k = choose|k: int|
                    0 <= k < before.len() && #[trigger] before[k] == seq!['.', '.'] && resolved(
                        before.take(k),
                    ).len() == 0;
                assert(before.take(k) == segments.take(k));
                assert(segments[k] == seq!['.', '.']);
            }
        }
        resolution_below_a_name(name, before);
        assert(whole.drop_last() == seq![name] + before);
        assert(whole.last() == segments.last());
        let parts = resolved(before);
        if segments.last() == seq!['.', '.'] {
            assert(segments.take(segments.len() - 1) == before);
            assert(segments[segments.len() - 1] == seq!['.', '.']);
            assert(parts.len() > 0);
            assert((seq![name] + parts).drop_last() == seq![name] + parts.drop_last());
        } else {
            assert((seq![name] + parts).push(segments.last()) == seq![name] + parts.push(
                segments.last(),
            ));
        }
    }
}

/// Plain names resolve to themselves, each in its place, and segments without a name between them
/// change nothing.
pub proof fn plain_names_resolve_to_themselves(names: Seq<Seq<char>>)
    requires
        forall|i: int| 0 <= i < names.len() ==> is_name(#[trigger] names[i]),
    ensures
        resolved(names) == names,
        resolved(seq![Seq::<char>::empty()] + names) == names,
        resolved(seq![seq!['.']] + names) == names,
    decreases names.len(),
{
    let nothing = seq![Seq::<char>::empty()];
    let here = seq![seq!['.']];
    if names.len() == 0 {
        assert(names =~= Seq::<Seq<char>>::empty());
        assert((nothing + names).drop_last() =~= Seq::<Seq<char>>::empty());
        assert((here + names).drop_last() =~= Seq::<Seq<char>>::empty());
        assert((nothing + names).last() == Seq::<char>::empty());
        assert((here + names).last() == seq!['.']);
    } else {
        let before = names.drop_last();
        plain_names_resolve_to_themselves(before);
        assert(is_name(names[names.len() - 1]));
        assert((nothing + names).drop_last() =~= nothing + before);
        assert((here + names).drop_last() =~= here + before);
        assert(before.push(names.last()) =~= names);
    }
}

} // verus!
