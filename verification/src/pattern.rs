//! The stem pattern: a file stem is recognized when it has the shape
//! `<title><white space>[<id>]` — a non-empty title, a run of white space,
//! and a non-empty bracketed identifier that contains no `]`, anchored at the
//! end of the stem. The bracket chosen is the rightmost one that completes
//! the shape, so the title is as long as possible.

use vstd::prelude::*;
use vstd::string::*;

verus! {

/// A Unicode white-space character (the `White_Space` property): the class
/// the stem pattern accepts between the title and the bracketed identifier.
pub open spec fn is_space(c: char) -> bool {
    let u = c as u32;
    (9 <= u && u <= 13) || u == 32 || u == 0x85 || u == 0xA0 || u == 0x1680 || (0x2000 <= u
        && u <= 0x200A) || u == 0x2028 || u == 0x2029 || u == 0x202F || u == 0x205F || u == 0x3000
}

/// Decides `is_space` on a concrete character.
pub fn is_space_char(c: char) -> (r: bool)
    ensures
        r == is_space(c),
{
    let u: u32 = c as u32;
    (9 <= u && u <= 13) || u == 32 || u == 0x85 || u == 0xA0 || u == 0x1680 || (0x2000 <= u
        && u <= 0x200A) || u == 0x2028 || u == 0x2029 || u == 0x202F || u == 0x205F || u == 0x3000
}

/// Start of the maximal white-space run that ends just before position `k`:
/// the least `j` such that everything in `stem[j..k]` is white space.
pub open spec fn run_start(stem: Seq<char>, k: int) -> int
    recommends
        0 <= k <= stem.len(),
    decreases k,
{
    if k >= 1 && is_space(stem[k - 1]) {
        run_start(stem, k - 1)
    } else {
        k
    }
}

/// Position `k` can serve as the opening bracket of the trailing `[<id>]`
/// suffix: the stem ends with `]`, `stem[k]` is `[`, at least one character
/// stands between them and none of those characters is `]`, and white space
/// immediately precedes the `[`.
pub open spec fn bracket_at(stem: Seq<char>, k: int) -> bool {
    &&& 1 <= k && k + 2 < stem.len()
    &&& stem[k] == '['
    &&& stem[stem.len() - 1] == ']'
    &&& (forall|m: int| k < m < stem.len() - 1 ==> stem[m] != ']')
    &&& is_space(stem[k - 1])
}

/// Position `k` yields a full match: a viable bracket whose preceding
/// white-space run still leaves a non-empty title in front of it.
pub open spec fn match_at(stem: Seq<char>, k: int) -> bool {
    bracket_at(stem, k) && run_start(stem, k) >= 1
}

/// The stem has the shape `<title><white space>[<id>]`.
pub open spec fn has_match(stem: Seq<char>) -> bool {
    exists|k: int| match_at(stem, k)
}

/// The selected bracket position: the rightmost match, so that the title is
/// as long as possible.
pub open spec fn match_pos(stem: Seq<char>) -> int {
    choose|k: int| match_at(stem, k) && (forall|k2: int| match_at(stem, k2) ==> k2 <= k)
}

/// What identifier extraction returns on a stem: `None` when the stem lacks
/// the `<title><white space>[<id>]` shape, and otherwise the pair of the
/// identifier (the text inside the trailing brackets) and the title (the text
/// in front of the white-space run that precedes the opening bracket), both
/// taken verbatim from the stem.
pub open spec fn spec_extract_id(stem: Seq<char>) -> Option<(Seq<char>, Seq<char>)> {
    if has_match(stem) {
        let k = match_pos(stem);
        Some((stem.subrange(k + 1, stem.len() - 1), stem.subrange(0, run_start(stem, k))))
    } else {
        None
    }
}

/// The white-space run before `k` lies within `[0, k]`, covers only white
/// space, and is maximal: no white space stands immediately before it.
pub proof fn lemma_run_start(stem: Seq<char>, k: int)
    requires
        0 <= k <= stem.len(),
    ensures
        0 <= run_start(stem, k) <= k,
        forall|m: int| run_start(stem, k) <= m < k ==> is_space(#[trigger] stem[m]),
        run_start(stem, k) >= 1 ==> !is_space(stem[run_start(stem, k) - 1]),
    decreases k,
{
    if k >= 1 && is_space(stem[k - 1]) {
        lemma_run_start(stem, k - 1);
    }
}

/// From any match a rightmost match can be reached.
proof fn lemma_rightmost_match(stem: Seq<char>, k0: int)
    requires
        match_at(stem, k0),
    ensures
        exists|k: int|
            match_at(stem, k) && (forall|k2: int| match_at(stem, k2) ==> k2 <= k),
    decreases stem.len() - k0,
{
    if forall|k2: int| match_at(stem, k2) ==> k2 <= k0 {
        assert(match_at(stem, k0) && (forall|k2: int| match_at(stem, k2) ==> k2 <= k0));
    } else {
        let k1 = choose|k2: int| match_at(stem, k2) && k2 > k0;
        lemma_rightmost_match(stem, k1);
    }
}

/// On a matching stem the selected position is itself a match, and no match
/// lies to its right.
pub proof fn lemma_match_pos(stem: Seq<char>)
    requires
        has_match(stem),
    ensures
        match_at(stem, match_pos(stem)),
        forall|k2: int| match_at(stem, k2) ==> k2 <= match_pos(stem),
{
    let k0 = choose|k: int| match_at(stem, k);
    lemma_rightmost_match(stem, k0);
}

/// Splits a stem of the shape `<title><white space>[<id>]` into the pair
/// `(id, title)`; returns `None` when the stem lacks that shape.
pub fn extract_id(stem: &str) -> (r: Option<(String, String)>)
    ensures
        match r {
            Some(p) => spec_extract_id(stem@) == Some((p.0@, p.1@)),
            None => spec_extract_id(stem@) is None,
        },
{
    let n: usize = stem.unicode_len();
    if n == 0 {
        return None;
    }
    if stem.get_char(n - 1) != ']' {
        return None;
    }
    let mut k: usize = n - 1;
    while k > 0
        invariant
            n == stem@.len(),
            1 <= n,
            k <= n - 1,
            stem@[n as int - 1] == ']',
            forall|m: int| k <= m < n - 1 ==> stem@[m] != ']',
            forall|k2: int| k2 >= k ==> !match_at(stem@, k2),
        decreases k,
    {
        k = k - 1;
        let c = stem.get_char(k);
        if c == ']' {
            assert forall|k2: int| !match_at(stem@, k2) by {
                if k2 < k as int {
                    if bracket_at(stem@, k2) {
                        assert(stem@[k as int] != ']');
                    }
                }
            }
            return None;
        }
        if c == '[' && k >= 1 && n >= 3 && k <= n - 3 {
            let p = stem.get_char(k - 1);
            if is_space_char(p) {
                assert(bracket_at(stem@, k as int));
                let mut j: usize = k;
                loop
                    invariant
                        j <= k,
                        k <= n - 1,
                        n == stem@.len(),
                        run_start(stem@, k as int) == run_start(stem@, j as int),
                    ensures
                        j <= k,
                        run_start(stem@, k as int) == j as int,
                    decreases j,
                {
                    if j == 0 {
                        break ;
                    }
                    let c2 = stem.get_char(j - 1);
                    if !is_space_char(c2) {
                        break ;
                    }
                    j = j - 1;
                }
                if j == 0 {
                    proof {
                        lemma_run_start(stem@, k as int);
                        assert(!is_space('['));
                        assert forall|k2: int| !match_at(stem@, k2) by {
                            if 1 <= k2 < k as int {
                                assert(is_space(stem@[k2]));
                            }
                        }
                    }
                    return None;
                }
                proof {
                    assert(match_at(stem@, k as int));
                    lemma_match_pos(stem@);
                    assert(match_pos(stem@) == k as int);
                }
                let title = stem.substring_char(0, j).to_owned();
                let id = stem.substring_char(k + 1, n - 1).to_owned();
                return Some((id, title));
            }
        }
    }
    return None;
}

} // verus!
