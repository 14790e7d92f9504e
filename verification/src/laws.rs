//! The laws the library states about itself: what extraction returns on a
//! well-shaped stem, that nothing is extracted without an `@` ancestor, that
//! the nearest such ancestor wins, that extracted text is verbatim stem text,
//! that a disallowed extension is always ignored, and that a scan's outcome
//! is a pure function of the listing it visits.

use vstd::prelude::*;

use crate::pattern::is_space;
use crate::pattern::run_start;
use crate::pattern::bracket_at;
use crate::pattern::match_at;
use crate::pattern::has_match;
use crate::pattern::match_pos;
use crate::pattern::spec_extract_id;
use crate::pattern::lemma_match_pos;
use crate::pattern::lemma_run_start;
use crate::paths::spec_segments;
use crate::paths::lemma_segments_len;
use crate::paths::spec_stem;
use crate::paths::spec_ext;
use crate::paths::spec_owner_of;
use crate::paths::is_owner_seg;
use crate::extract::spec_from_path;
use crate::route::spec_route;
use crate::route::spec_scan;
use crate::route::spec_allowed_ext;
use crate::route::FileOutcomeView;

verus! {

/// A stem assembled as `<title> [<id>]` — non-empty title not ending in
/// white space, one space, non-empty identifier holding no `]` and no `[`
/// right after white space — is split back into exactly that identifier and
/// title.
pub proof fn lemma_stem_round_trip(title: Seq<char>, id: Seq<char>)
    requires
        title.len() >= 1,
        !is_space(title.last()),
        id.len() >= 1,
        forall|m: int| 0 <= m < id.len() ==> id[m] != ']',
        forall|m: int| 1 <= m < id.len() ==> !(#[trigger] id[m] == '[' && is_space(id[m - 1])),
    ensures
        spec_extract_id(title + seq![' ', '['] + id + seq![']']) == Some((id, title)),
{
    let stem = title + seq![' ', '['] + id + seq![']'];
    let t = title.len() as int;
    let n = stem.len() as int;
    assert(n == t + id.len() + 3);
    assert forall|m: int| 0 <= m < t implies stem[m] == title[m] by {}
    assert(stem[t] == ' ');
    assert(stem[t + 1] == '[');
    assert forall|m: int| 0 <= m < id.len() implies stem[t + 2 + m] == id[m] by {}
    assert(stem[n - 1] == ']');

    // position t + 1 is a match
    assert forall|m: int| t + 1 < m < n - 1 implies stem[m] != ']' by {
        assert(stem[m] == id[m - t - 2]);
    }
    assert(is_space(' '));
    assert(bracket_at(stem, t + 1));
    assert(run_start(stem, t) == t);
    assert(run_start(stem, t + 1) == t);
    assert(match_at(stem, t + 1));

    // and no match lies to its right
    assert forall|k2: int| k2 > t + 1 implies !match_at(stem, k2) by {
        if k2 + 2 < n && stem[k2] == '[' {
            assert(stem[k2] == id[k2 - t - 2]);
            if k2 == t + 2 {
                assert(stem[k2 - 1] == '[');
                assert(!is_space('['));
            } else {
                assert(stem[k2 - 1] == id[k2 - t - 3]);
                assert(!(id[k2 - t - 2] == '[' && is_space(id[k2 - t - 3])));
            }
            assert(!bracket_at(stem, k2));
        }
    }
    lemma_match_pos(stem);
    assert(match_pos(stem) == t + 1);
    assert(stem.subrange(t + 2, n - 1) =~= id);
    assert(stem.subrange(0, t) =~= title);
}

/// A sequence of segments none of which begins with `@` has no owner.
pub proof fn lemma_owner_none(segs: Seq<Seq<char>>)
    requires
        forall|i: int| 0 <= i < segs.len() ==> !is_owner_seg(#[trigger] segs[i]),
    ensures
        spec_owner_of(segs) is None,
    decreases segs.len(),
{
    if segs.len() > 0 {
        lemma_owner_none(segs.drop_last());
    }
}

/// A path none of whose ancestor segments begins with `@` yields no record,
/// whether or not its name matches the stem pattern.
pub proof fn lemma_no_owner_no_record(path: Seq<char>)
    requires
        forall|i: int|
            0 <= i < spec_segments(path).len() - 1 ==> !is_owner_seg(
                #[trigger] spec_segments(path)[i],
            ),
    ensures
        spec_from_path(path) is None,
{
    lemma_segments_len(path);
    let anc = spec_segments(path).drop_last();
    assert forall|i: int| 0 <= i < anc.len() implies !is_owner_seg(#[trigger] anc[i]) by {
        assert(anc[i] == spec_segments(path)[i]);
    }
    lemma_owner_none(anc);
}

/// Owner selection takes the nearest qualifying segment: when segment `i`
/// begins with `@` and no later (deeper) one does, it is the owner.
pub proof fn lemma_owner_nearest(segs: Seq<Seq<char>>, i: int)
    requires
        0 <= i < segs.len(),
        is_owner_seg(segs[i]),
        forall|j: int| i < j < segs.len() ==> !is_owner_seg(#[trigger] segs[j]),
    ensures
        spec_owner_of(segs) == Some(segs[i]),
    decreases segs.len(),
{
    if i < segs.len() - 1 {
        lemma_owner_nearest(segs.drop_last(), i);
    }
}

/// On a path whose ancestor `i` begins with `@` while no deeper ancestor
/// does, a successful extraction reports exactly that ancestor as the owner.
pub proof fn lemma_record_owner_nearest(path: Seq<char>, i: int)
    requires
        0 <= i < spec_segments(path).len() - 1,
        is_owner_seg(spec_segments(path)[i]),
        forall|j: int|
            i < j < spec_segments(path).len() - 1 ==> !is_owner_seg(
                #[trigger] spec_segments(path)[j],
            ),
        has_match(spec_stem(spec_segments(path).last())),
    ensures
        spec_from_path(path) is Some,
        spec_from_path(path)->0.user == spec_segments(path)[i],
{
    lemma_segments_len(path);
    let anc = spec_segments(path).drop_last();
    assert forall|j: int| i < j < anc.len() implies !is_owner_seg(#[trigger] anc[j]) by {
        assert(anc[j] == spec_segments(path)[j]);
    }
    assert(anc[i] == spec_segments(path)[i]);
    lemma_owner_nearest(anc, i);
}

/// A selected owner is itself an owner segment: non-empty and beginning
/// with `@`.
pub proof fn lemma_owner_is_owner_seg(segs: Seq<Seq<char>>)
    requires
        spec_owner_of(segs) is Some,
    ensures
        is_owner_seg(spec_owner_of(segs)->0),
    decreases segs.len(),
{
    if segs.len() > 0 && !is_owner_seg(segs.last()) {
        lemma_owner_is_owner_seg(segs.drop_last());
    }
}

/// A record never carries an empty field: partial records do not exist, and
/// identifier, owner and title are all non-empty, the owner beginning with
/// `@`.
pub proof fn lemma_record_fields_nonempty(path: Seq<char>)
    requires
        spec_from_path(path) is Some,
    ensures
        ({
            let e = spec_from_path(path)->0;
            &&& e.id.len() >= 1
            &&& e.user.len() >= 1 && e.user[0] == '@'
            &&& e.title.len() >= 1
        }),
{
    let stem = spec_stem(spec_segments(path).last());
    lemma_match_pos(stem);
    lemma_run_start(stem, match_pos(stem));
    lemma_owner_is_owner_seg(spec_segments(path).drop_last());
}

/// Whatever extraction returns came verbatim from the stem: the title is the
/// stem's prefix of its own length, and the identifier the slice just inside
/// the trailing brackets.
pub proof fn lemma_extract_verbatim(stem: Seq<char>)
    requires
        spec_extract_id(stem) is Some,
    ensures
        ({
            let p = spec_extract_id(stem)->0;
            &&& p.1 == stem.subrange(0, p.1.len() as int)
            &&& p.0 == stem.subrange(stem.len() - 1 - p.0.len(), stem.len() - 1)
        }),
{
    lemma_match_pos(stem);
    let k = match_pos(stem);
    lemma_run_start(stem, k);
}

/// A file whose extension is outside the allow-list routes to `Ignored`,
/// whatever the rest of its path holds.
pub proof fn lemma_disallowed_ext_ignored(path: Seq<char>)
    requires
        spec_ext(spec_segments(path).last()) is Some,
        !spec_allowed_ext(spec_ext(spec_segments(path).last())->0),
    ensures
        spec_route(path) == FileOutcomeView::Ignored,
{
}

/// A scan's outcome is a pure function of the listing it visits: two scans
/// over the same listing give identical outcome sequences.
pub proof fn lemma_scan_repeatable(first: Seq<Seq<char>>, second: Seq<Seq<char>>)
    requires
        first == second,
    ensures
        spec_scan(first) == spec_scan(second),
{
}

/// An empty listing scans to an empty output.
pub proof fn lemma_scan_empty()
    ensures
        spec_scan(Seq::<Seq<char>>::empty()) == Seq::<FileOutcomeView>::empty(),
{
    assert(spec_scan(Seq::<Seq<char>>::empty()) =~= Seq::<FileOutcomeView>::empty());
}

} // verus!
