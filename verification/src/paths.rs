//! The path model: a path is its text, read as the sequence of segments that
//! `/` separates. The final segment is the file's own name; the segments
//! before it are its ancestors, deepest last. A file name splits into a stem
//! and an optional extension at its last `.`, except that a `.` in the first
//! position marks a hidden file rather than an extension.

use vstd::prelude::*;
use vstd::string::*;

verus! {

/// The segments of a path: its text split on `/`, separators dropped. Every
/// path has at least one segment, and the final one is the file's own name.
pub open spec fn spec_segments(path: Seq<char>) -> Seq<Seq<char>>
    decreases path.len(),
{
    if path.len() == 0 {
        seq![Seq::<char>::empty()]
    } else if path.last() == '/' {
        spec_segments(path.drop_last()).push(Seq::<char>::empty())
    } else {
        let s = spec_segments(path.drop_last());
        s.update(s.len() - 1, s.last().push(path.last()))
    }
}

/// A path always has at least one segment.
pub proof fn lemma_segments_len(path: Seq<char>)
    ensures
        spec_segments(path).len() >= 1,
    decreases path.len(),
{
    if path.len() > 0 {
        lemma_segments_len(path.drop_last());
    }
}

/// Splits a path into its segments.
pub fn split_segments(path: &str) -> (segs: Vec<String>)
    ensures
        segs.deep_view() == spec_segments(path@),
        segs.len() >= 1,
{
    let n: usize = path.unicode_len();
    let mut segs: Vec<String> = Vec::new();
    let mut start: usize = 0;
    let mut i: usize = 0;
    proof {
        assert(path@.subrange(0, 0) =~= Seq::<char>::empty());
        assert(segs.deep_view().push(path@.subrange(0, 0)) =~= spec_segments(
            path@.subrange(0, 0),
        ));
    }
    while i < n
        invariant
            i <= n,
            start <= i,
            n == path@.len(),
            spec_segments(path@.subrange(0, i as int)) == segs.deep_view().push(
                path@.subrange(start as int, i as int),
            ),
        decreases n - i,
    {
        let c = path.get_char(i);
        proof {
            assert(path@.subrange(0, i + 1).drop_last() =~= path@.subrange(0, i as int));
            assert(path@.subrange(0, i + 1).last() == path@[i as int]);
        }
        if c == '/' {
            let seg = path.substring_char(start, i).to_owned();
            let ghost old_segs = segs.deep_view();
            segs.push(seg);
            proof {
                assert(segs.deep_view() =~= old_segs.push(path@.subrange(
                    start as int,
                    i as int,
                )));
                assert(path@.subrange(i + 1, i + 1) =~= Seq::<char>::empty());
                assert(spec_segments(path@.subrange(0, i + 1)) =~= segs.deep_view().push(
                    path@.subrange(i + 1, i + 1),
                ));
            }
            start = i + 1;
        } else {
            proof {
                assert(path@.subrange(start as int, i + 1) =~= path@.subrange(
                    start as int,
                    i as int,
                ).push(path@[i as int]));
                let s = spec_segments(path@.subrange(0, i as int));
                assert(s.last() == path@.subrange(start as int, i as int));
                assert(spec_segments(path@.subrange(0, i + 1)) =~= segs.deep_view().push(
                    path@.subrange(start as int, i + 1),
                ));
            }
        }
        i = i + 1;
    }
    let seg = path.substring_char(start, n).to_owned();
    let ghost old_segs = segs.deep_view();
    segs.push(seg);
    proof {
        assert(path@.subrange(0, n as int) =~= path@);
        assert(segs.deep_view() =~= old_segs.push(path@.subrange(start as int, n as int)));
    }
    segs
}

/// A segment that names an owner: non-empty and beginning with the `@` sigil.
pub open spec fn is_owner_seg(s: Seq<char>) -> bool {
    s.len() > 0 && s[0] == '@'
}

/// The owner among a sequence of ancestor segments: the last (deepest) one
/// that begins with `@`, or `None` when there is none.
pub open spec fn spec_owner_of(segs: Seq<Seq<char>>) -> Option<Seq<char>>
    decreases segs.len(),
{
    if segs.len() == 0 {
        None
    } else if is_owner_seg(segs.last()) {
        Some(segs.last())
    } else {
        spec_owner_of(segs.drop_last())
    }
}

/// Index of the `.` that separates stem from extension in a file name: the
/// last `.` of the name, except that a `.` in the first position does not
/// count. `-1` when the name has no such separator.
pub open spec fn dot_pos(name: Seq<char>) -> int
    decreases name.len(),
{
    if name.len() <= 1 {
        -1
    } else if name.last() == '.' {
        name.len() - 1
    } else {
        dot_pos(name.drop_last())
    }
}

/// The file stem: the name with its extension suffix and the separating dot
/// removed; the whole name when there is no extension.
pub open spec fn spec_stem(name: Seq<char>) -> Seq<char> {
    if dot_pos(name) < 0 {
        name
    } else {
        name.subrange(0, dot_pos(name))
    }
}

/// The extension: the text after the separating dot, or `None` when the name
/// has none.
pub open spec fn spec_ext(name: Seq<char>) -> Option<Seq<char>> {
    if dot_pos(name) < 0 {
        None
    } else {
        Some(name.subrange(dot_pos(name) + 1, name.len() as int))
    }
}

/// The separating dot is the last `.` of the name and never its first
/// character; when there is none, the name holds no `.` outside position 0.
pub proof fn lemma_dot_pos(name: Seq<char>)
    ensures
        -1 <= dot_pos(name) < name.len(),
        dot_pos(name) == -1 <==> (forall|m: int| 1 <= m < name.len() ==> name[m] != '.'),
        dot_pos(name) >= 0 ==> 1 <= dot_pos(name) && name[dot_pos(name)] == '.',
        forall|m: int| dot_pos(name) < m < name.len() && m >= 1 ==> name[m] != '.',
    decreases name.len(),
{
    if name.len() <= 1 {
    } else if name.last() == '.' {
    } else {
        lemma_dot_pos(name.drop_last());
        assert(forall|m: int| 1 <= m < name.len() - 1 ==> name.drop_last()[m] == name[m]);
    }
}

/// Splits a file name into its stem and its optional extension.
pub fn stem_and_ext(name: &str) -> (r: (String, Option<String>))
    ensures
        r.0@ == spec_stem(name@),
        match r.1 {
            Some(e) => spec_ext(name@) == Some(e@),
            None => spec_ext(name@) is None,
        },
{
    let n: usize = name.unicode_len();
    let mut i: usize = n;
    while i > 1
        invariant
            i <= n,
            n == name@.len(),
            forall|m: int| i <= m < n ==> name@[m] != '.',
        decreases i,
    {
        let c = name.get_char(i - 1);
        if c == '.' {
            proof {
                lemma_dot_pos(name@);
                assert(dot_pos(name@) == i - 1);
            }
            let stem = name.substring_char(0, i - 1).to_owned();
            let ext = name.substring_char(i, n).to_owned();
            return (stem, Some(ext));
        }
        i = i - 1;
    }
    proof {
        lemma_dot_pos(name@);
        assert(dot_pos(name@) == -1);
    }
    (name.to_owned(), None)
}

} // verus!
