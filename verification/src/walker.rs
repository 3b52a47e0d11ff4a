//! The directory walker's decision logic.
//!
//! Reading a directory is I/O and happens outside the library; the walker
//! itself is a work-list state machine.  The caller repeatedly takes a
//! pending directory with `next_dir`, lists it, and hands the listing to
//! `feed`, which files every subdirectory for a later visit and keeps every
//! file whose lower-cased name ends with the lower-cased suffix.

use vstd::prelude::*;
use crate::model::str_views;
use crate::text::{lower_of, lowercase, seq_ends_with, str_ends_with};

verus! {

/// One entry of a directory listing, as the caller saw it.
pub struct WalkEntry {
    pub path: String,
    pub name: String,
    pub is_dir: bool,
}

/// The mathematical value of a `WalkEntry`.
pub struct WalkEntryView {
    pub path: Seq<char>,
    pub name: Seq<char>,
    pub is_dir: bool,
}

impl View for WalkEntry {
    type V = WalkEntryView;

    open spec fn view(&self) -> WalkEntryView {
        WalkEntryView { path: self.path@, name: self.name@, is_dir: self.is_dir }
    }
}

/// A file the walker kept: its full path and its bare name.
pub struct CandidateFile {
    pub path: String,
    pub name: String,
}

/// The mathematical value of a `CandidateFile`.
pub struct CandidateFileView {
    pub path: Seq<char>,
    pub name: Seq<char>,
}

impl View for CandidateFile {
    type V = CandidateFileView;

    open spec fn view(&self) -> CandidateFileView {
        CandidateFileView { path: self.path@, name: self.name@ }
    }
}

/// Mapping to views commutes with appending one string.
proof fn lemma_str_views_push(s: Seq<String>, x: String)
    ensures
        str_views(s.push(x)) == str_views(s).push(x@),
{
    assert(str_views(s.push(x)) =~= str_views(s).push(x@));
}

/// Mapping to views commutes with appending one candidate.
proof fn lemma_candidate_views_push(s: Seq<CandidateFile>, x: CandidateFile)
    ensures
        candidate_views(s.push(x)) == candidate_views(s).push(x@),
{
    assert(candidate_views(s.push(x)) =~= candidate_views(s).push(x@));
}

/// The views of a sequence of listing entries.
pub open spec fn walk_entry_views(s: Seq<WalkEntry>) -> Seq<WalkEntryView> {
    s.map_values(|e: WalkEntry| e@)
}

/// The views of a sequence of candidates.
pub open spec fn candidate_views(s: Seq<CandidateFile>) -> Seq<CandidateFileView> {
    s.map_values(|c: CandidateFile| c@)
}

/// A file entry qualifies iff its lower-cased name ends with the (already
/// lower-cased) suffix.
pub open spec fn entry_qualifies(e: WalkEntryView, folded_suffix: Seq<char>) -> bool {
    !e.is_dir && seq_ends_with(lower_of(e.name), folded_suffix)
}

/// The paths of the directories in a listing, in listing order.
pub open spec fn spec_dirs(entries: Seq<WalkEntryView>) -> Seq<Seq<char>>
    decreases entries.len(),
{
    if entries.len() == 0 {
        Seq::empty()
    } else if entries.last().is_dir {
        spec_dirs(entries.drop_last()).push(entries.last().path)
    } else {
        spec_dirs(entries.drop_last())
    }
}

/// The qualifying files of a listing, in listing order.
pub open spec fn spec_file_matches(entries: Seq<WalkEntryView>, folded_suffix: Seq<char>) -> Seq<
    CandidateFileView,
>
    decreases entries.len(),
{
    if entries.len() == 0 {
        Seq::empty()
    } else if entry_qualifies(entries.last(), folded_suffix) {
        spec_file_matches(entries.drop_last(), folded_suffix).push(
            CandidateFileView { path: entries.last().path, name: entries.last().name },
        )
    } else {
        spec_file_matches(entries.drop_last(), folded_suffix)
    }
}

/// The walker's state: directories still to visit and files kept so far.
pub struct Walker {
    pub pending: Vec<String>,
    pub matched: Vec<CandidateFile>,
    pub suffix_folded: String,
}

impl Walker {
    /// A walker that still has to visit `root` and has kept nothing yet.
    pub fn new(root: String, suffix: &str) -> (w: Walker)
        ensures
            str_views(w.pending@) =~= seq![root@],
            w.matched@.len() == 0,
            w.suffix_folded@ == lower_of(suffix@),
    {
        let mut pending: Vec<String> = Vec::new();
        pending.push(root);
        Walker { pending, matched: Vec::new(), suffix_folded: lowercase(suffix) }
    }

    /// Takes some still-pending directory, if one is left.
    pub fn next_dir(&mut self) -> (r: Option<String>)
        ensures
            final(self).matched == old(self).matched,
            final(self).suffix_folded == old(self).suffix_folded,
            old(self).pending@.len() == 0 ==> r is None && final(self).pending@ == old(self).pending@,
            old(self).pending@.len() > 0 ==> r == Some(old(self).pending@.last())
                && final(self).pending@ == old(self).pending@.drop_last(),
    {
        self.pending.pop()
    }

    /// Digests one directory listing: queues every subdirectory and keeps
    /// every file whose lower-cased name ends with the lower-cased suffix,
    /// both in listing order.
    pub fn feed(&mut self, entries: &Vec<WalkEntry>)
        ensures
            final(self).suffix_folded == old(self).suffix_folded,
            str_views(final(self).pending@) == str_views(old(self).pending@)
                + spec_dirs(walk_entry_views(entries@)),
            candidate_views(final(self).matched@) == candidate_views(old(self).matched@)
                + spec_file_matches(walk_entry_views(entries@), old(self).suffix_folded@),
    {
        let ghost pending0 = self.pending@;
        let ghost matched0 = self.matched@;
        let ghost sfx = self.suffix_folded;
        let mut i: usize = 0;
        proof {
            assert(str_views(pending0) + spec_dirs(walk_entry_views(entries@).take(0)) =~= str_views(
                pending0,
            ));
            assert(candidate_views(matched0) + spec_file_matches(
                walk_entry_views(entries@).take(0),
                sfx@,
            ) =~= candidate_views(matched0));
        }
        while i < entries.len()
            invariant
                self.suffix_folded == sfx,
                i <= entries@.len(),
                str_views(self.pending@) == str_views(pending0) + spec_dirs(
                    walk_entry_views(entries@).take(i as int),
                ),
                candidate_views(self.matched@) == candidate_views(matched0) + spec_file_matches(
                    walk_entry_views(entries@).take(i as int),
                    sfx@,
                ),
            decreases entries@.len() - i,
        {
            let ghost prefix = walk_entry_views(entries@).take(i as int);
            let ghost pending_at = self.pending@;
            let ghost matched_at = self.matched@;
            let entry = &entries[i];
            if entry.is_dir {
                let dir_path = entry.path.clone();
                proof {
                    lemma_str_views_push(pending_at, dir_path);
                }
                self.pending.push(dir_path);
            } else if str_ends_with(
                lowercase(entry.name.as_str()).as_str(),
                self.suffix_folded.as_str(),
            ) {
                let found = CandidateFile { path: entry.path.clone(), name: entry.name.clone() };
                proof {
                    lemma_candidate_views_push(matched_at, found);
                }
                self.matched.push(found);
            }
            proof {
                let next = walk_entry_views(entries@).take(i + 1);
                assert(next.drop_last() =~= prefix);
                assert(next.last() == entries@[i as int]@);
                assert(str_views(self.pending@) =~= str_views(pending0) + spec_dirs(next));
                assert(candidate_views(self.matched@) =~= candidate_views(matched0)
                    + spec_file_matches(next, sfx@));
            }
            i = i + 1;
        }
        proof {
            assert(walk_entry_views(entries@).take(entries@.len() as int) =~= walk_entry_views(
                entries@,
            ));
        }
    }
}

/// A candidate appears among a listing's matches iff the listing holds a
/// file entry with that path and name whose lower-cased name ends with the
/// suffix: the walker keeps every qualifying file and nothing else.
pub proof fn lemma_walk_matches_iff(
    entries: Seq<WalkEntryView>,
    folded_suffix: Seq<char>,
    c: CandidateFileView,
)
    ensures
        spec_file_matches(entries, folded_suffix).contains(c) <==> exists|i: int|
            0 <= i < entries.len() && #[trigger] entry_qualifies(entries[i], folded_suffix)
                && entries[i].path == c.path && entries[i].name == c.name,
    decreases entries.len(),
{
    if entries.len() > 0 {
        lemma_walk_matches_iff(entries.drop_last(), folded_suffix, c);
        let sub = spec_file_matches(entries.drop_last(), folded_suffix);
        assert(forall|i: int|
            0 <= i < entries.len() - 1 ==> entries.drop_last()[i] == #[trigger] entries[i]);
        if spec_file_matches(entries, folded_suffix).contains(c) {
            let j = choose|j: int|
                0 <= j < spec_file_matches(entries, folded_suffix).len() && spec_file_matches(
                    entries,
                    folded_suffix,
                )[j] == c;
            if j < sub.len() {
                assert(sub[j] == c);
            }
        }
        if sub.contains(c) {
            let j = choose|j: int| 0 <= j < sub.len() && sub[j] == c;
            assert(spec_file_matches(entries, folded_suffix)[j] == c);
        }
        if exists|i: int|
            0 <= i < entries.len() && #[trigger] entry_qualifies(entries[i], folded_suffix)
                && entries[i].path == c.path && entries[i].name == c.name {
            let i = choose|i: int|
                0 <= i < entries.len() && #[trigger] entry_qualifies(entries[i], folded_suffix)
                    && entries[i].path == c.path && entries[i].name == c.name;
            if i == entries.len() - 1 {
                assert(entry_qualifies(entries.last(), folded_suffix));
                assert(spec_file_matches(entries, folded_suffix).last() == c);
                assert(spec_file_matches(entries, folded_suffix).contains(c));
            } else {
                assert(entry_qualifies(entries.drop_last()[i], folded_suffix));
                assert(sub.contains(c));
                if entry_qualifies(entries.last(), folded_suffix) {
                    let j = choose|j: int| 0 <= j < sub.len() && sub[j] == c;
                    assert(spec_file_matches(entries, folded_suffix)[j] == c);
                }
            }
        }
    }
}

} // verus!
