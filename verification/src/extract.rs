//! The metadata record and its extraction from a path. A record is built
//! only when both parts succeed: the identifier and title come from the stem
//! of the path's final segment, and the owner is the nearest ancestor
//! segment that begins with `@`.

use vstd::prelude::*;
use vstd::string::*;

use crate::pattern::spec_extract_id;
use crate::pattern::extract_id;
use crate::paths::spec_segments;
use crate::paths::spec_stem;
use crate::paths::spec_owner_of;
use crate::paths::is_owner_seg;
use crate::paths::split_segments;
use crate::paths::stem_and_ext;

verus! {

/// The mathematical content of a metadata record.
pub ghost struct MovieEntryView {
    pub id: Seq<char>,
    pub user: Seq<char>,
    pub title: Seq<char>,
}

/// One media file's metadata: the bracketed identifier from its name, the
/// owning user from its ancestors, and the title from its name.
#[derive(Debug)]
pub struct MovieEntry {
    pub id: String,
    pub user: String,
    pub title: String,
}

impl View for MovieEntry {
    type V = MovieEntryView;

    open spec fn view(&self) -> MovieEntryView {
        MovieEntryView { id: self.id@, user: self.user@, title: self.title@ }
    }
}

impl PartialEq for MovieEntry {
    fn eq(&self, other: &MovieEntry) -> (r: bool) {
        self.id == other.id && self.user == other.user && self.title == other.title
    }
}

impl vstd::std_specs::cmp::PartialEqSpecImpl for MovieEntry {
    open spec fn obeys_eq_spec() -> bool {
        true
    }

    open spec fn eq_spec(&self, other: &MovieEntry) -> bool {
        self@ == other@
    }
}

/// What metadata extraction returns on a path: `None` unless the stem of the
/// final segment has the `<title><white space>[<id>]` shape and some ancestor
/// segment begins with `@`; otherwise the record made of that identifier and
/// title and of the deepest such ancestor.
pub open spec fn spec_from_path(path: Seq<char>) -> Option<MovieEntryView> {
    let segs = spec_segments(path);
    match spec_extract_id(spec_stem(segs.last())) {
        None => None,
        Some(p) => match spec_owner_of(segs.drop_last()) {
            None => None,
            Some(u) => Some(MovieEntryView { id: p.0, user: u, title: p.1 }),
        },
    }
}

/// Tests one path segment for the owner sigil: the segment is returned
/// verbatim when it begins with `@`.
pub fn extract_user_name(component: &str) -> (r: Option<String>)
    ensures
        match r {
            Some(u) => is_owner_seg(component@) && u@ == component@,
            None => !is_owner_seg(component@),
        },
{
    let n: usize = component.unicode_len();
    if n > 0 && component.get_char(0) == '@' {
        Some(component.to_owned())
    } else {
        None
    }
}

/// Finds the owner among a path's segments: the deepest ancestor segment
/// (the file's own name excluded) that begins with `@`.
fn find_owner(segs: &Vec<String>) -> (r: Option<String>)
    requires
        segs.len() >= 1,
    ensures
        match r {
            Some(u) => spec_owner_of(segs.deep_view().drop_last()) == Some(u@),
            None => spec_owner_of(segs.deep_view().drop_last()) is None,
        },
{
    let ghost anc = segs.deep_view().drop_last();
    let mut i: usize = segs.len() - 1;
    proof {
        assert(anc.take(i as int) =~= anc);
    }
    while i > 0
        invariant
            i <= segs.len() - 1,
            segs.len() >= 1,
            anc == segs.deep_view().drop_last(),
            spec_owner_of(anc) == spec_owner_of(anc.take(i as int)),
        decreases i,
    {
        i = i - 1;
        proof {
            assert(anc.take(i + 1).last() == anc[i as int]);
            assert(anc.take(i + 1).drop_last() =~= anc.take(i as int));
            assert(anc[i as int] == segs.deep_view()[i as int]);
        }
        let found = extract_user_name(segs[i].as_str());
        match found {
            Some(user) => {
                return Some(user);
            },
            None => {},
        }
    }
    proof {
        assert(anc.take(0) =~= Seq::<Seq<char>>::empty());
    }
    None
}

impl MovieEntry {
    /// Extracts the metadata record from a path; `None` when the name does
    /// not match the stem pattern or no ancestor segment begins with `@`.
    pub fn from_path(path: &str) -> (r: Option<MovieEntry>)
        ensures
            match r {
                Some(e) => spec_from_path(path@) == Some(e@),
                None => spec_from_path(path@) is None,
            },
    {
        let segs = split_segments(path);
        let last: usize = segs.len() - 1;
        let se = stem_and_ext(segs[last].as_str());
        let idt = extract_id(se.0.as_str());
        match idt {
            None => None,
            Some((id, title)) => match find_owner(&segs) {
                Some(user) => Some(MovieEntry { id, user, title }),
                None => None,
            },
        }
    }
}

} // verus!
