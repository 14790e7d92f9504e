//! Routing of one file: the extension gate first — a file whose name carries
//! an extension outside the allow-list is ignored, while a file with no
//! extension at all is not filtered — then extraction, whose result decides
//! between a record and a failure. Every file gets exactly one outcome.

use vstd::prelude::*;
use vstd::string::*;

use crate::extract::MovieEntry;
use crate::extract::MovieEntryView;
use crate::extract::spec_from_path;
use crate::paths::spec_segments;
use crate::paths::spec_ext;
use crate::paths::split_segments;
use crate::paths::stem_and_ext;

verus! {

/// Character-for-character string equality.
fn str_eq(a: &str, b: &str) -> (r: bool)
    ensures
        r == (a@ == b@),
{
    let na: usize = a.unicode_len();
    let nb: usize = b.unicode_len();
    if na != nb {
        return false;
    }
    let mut i: usize = 0;
    while i < na
        invariant
            i <= na,
            na == a@.len(),
            na == b@.len(),
            forall|m: int| 0 <= m < i ==> a@[m] == b@[m],
        decreases na - i,
    {
        if a.get_char(i) != b.get_char(i) {
            return false;
        }
        i = i + 1;
    }
    proof {
        assert(a@ =~= b@);
    }
    true
}

/// The extension allow-list: the media extensions the scan accepts.
pub open spec fn spec_allowed_ext(e: Seq<char>) -> bool {
    e == "mkv"@ || e == "mp4"@ || e == "webm"@
}

/// Decides the allow-list on a concrete extension.
fn allowed_ext(e: &str) -> (r: bool)
    ensures
        r == spec_allowed_ext(e@),
{
    str_eq(e, "mkv") || str_eq(e, "mp4") || str_eq(e, "webm")
}

/// The routing decision for one file.
#[derive(Debug)]
pub enum FileOutcome {
    /// The extension gate refused the file; it never reaches extraction.
    Ignored,
    /// Extraction succeeded with this record.
    Record(MovieEntry),
    /// Extraction yielded no record.
    Failed,
}

/// The mathematical content of a routing decision.
pub ghost enum FileOutcomeView {
    Ignored,
    Record(MovieEntryView),
    Failed,
}

impl View for FileOutcome {
    type V = FileOutcomeView;

    open spec fn view(&self) -> FileOutcomeView {
        match self {
            FileOutcome::Ignored => FileOutcomeView::Ignored,
            FileOutcome::Record(e) => FileOutcomeView::Record(e@),
            FileOutcome::Failed => FileOutcomeView::Failed,
        }
    }
}

impl DeepView for FileOutcome {
    type V = FileOutcomeView;

    open spec fn deep_view(&self) -> FileOutcomeView {
        self@
    }
}

impl PartialEq for FileOutcome {
    fn eq(&self, other: &FileOutcome) -> (r: bool) {
        match (self, other) {
            (FileOutcome::Ignored, FileOutcome::Ignored) => true,
            (FileOutcome::Record(a), FileOutcome::Record(b)) => a == b,
            (FileOutcome::Failed, FileOutcome::Failed) => true,
            _ => false,
        }
    }
}

impl vstd::std_specs::cmp::PartialEqSpecImpl for FileOutcome {
    open spec fn obeys_eq_spec() -> bool {
        true
    }

    open spec fn eq_spec(&self, other: &FileOutcome) -> bool {
        self@ == other@
    }
}

/// The extension gate refuses the file: its name carries an extension and
/// that extension is outside the allow-list. A name with no extension passes.
pub open spec fn spec_ignored(path: Seq<char>) -> bool {
    match spec_ext(spec_segments(path).last()) {
        Some(e) => !spec_allowed_ext(e),
        None => false,
    }
}

/// The routing decision for a path: ignored on a disallowed extension, and
/// otherwise the record that extraction yields, or failure when it yields
/// none.
pub open spec fn spec_route(path: Seq<char>) -> FileOutcomeView {
    if spec_ignored(path) {
        FileOutcomeView::Ignored
    } else {
        match spec_from_path(path) {
            Some(e) => FileOutcomeView::Record(e),
            None => FileOutcomeView::Failed,
        }
    }
}

/// Routes one file path: the extension gate first, then extraction.
pub fn route(path: &str) -> (r: FileOutcome)
    ensures
        r@ == spec_route(path@),
{
    let segs = split_segments(path);
    let last: usize = segs.len() - 1;
    let se = stem_and_ext(segs[last].as_str());
    proof {
        assert(segs.deep_view()[last as int] == spec_segments(path@).last());
    }
    match se.1 {
        Some(ext) => {
            if !allowed_ext(ext.as_str()) {
                return FileOutcome::Ignored;
            }
        },
        None => {},
    }
    match MovieEntry::from_path(path) {
        Some(e) => FileOutcome::Record(e),
        None => FileOutcome::Failed,
    }
}

/// The routing decisions for a sequence of paths, in order.
pub open spec fn spec_scan(paths: Seq<Seq<char>>) -> Seq<FileOutcomeView> {
    paths.map_values(|p: Seq<char>| spec_route(p))
}

/// Routes every path of a list, in order: the scan's decisions over one
/// fixed listing of visited files.
#[verifier::rlimit(60)]
pub fn scan(paths: &Vec<String>) -> (r: Vec<FileOutcome>)
    ensures
        r.deep_view() == spec_scan(paths.deep_view()),
{
    let mut out: Vec<FileOutcome> = Vec::new();
    let mut i: usize = 0;
    proof {
        assert(out.deep_view() =~= spec_scan(paths.deep_view().take(0)));
    }
    while i < paths.len()
        invariant
            i <= paths.len(),
            out.deep_view() == spec_scan(paths.deep_view().take(i as int)),
        decreases paths.len() - i,
    {
        let o = route(paths[i].as_str());
        out.push(o);
        proof {
            assert(paths.deep_view().take(i + 1).drop_last() =~= paths.deep_view().take(i as int));
            assert(out.deep_view() =~= spec_scan(paths.deep_view().take(i as int)).push(
                spec_route(paths.deep_view()[i as int]),
            ));
            assert(out.deep_view() =~= spec_scan(paths.deep_view().take(i + 1)));
        }
        i = i + 1;
    }
    proof {
        assert(paths.deep_view().take(paths.len() as int) =~= paths.deep_view());
    }
    out
}

} // verus!
