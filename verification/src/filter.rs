//! The keyword filter: keeps the files that mention, case-insensitively,
//! at least one keyword on at least one line.

use vstd::prelude::*;
use crate::model::{entry_views, str_views, FileEntry, FileEntryView};
use crate::text::{lower_of, lowercase, seq_contains, str_contains};

verus! {

/// The line, case-folded, contains some keyword of `kws`, case-folded.
pub open spec fn line_matches(line: Seq<char>, kws: Seq<Seq<char>>) -> bool {
    exists|ki: int| 0 <= ki < kws.len() && seq_contains(lower_of(line), lower_of(kws[ki]))
}

/// Some line of the entry matches some keyword.
pub open spec fn entry_matches(e: FileEntryView, kws: Seq<Seq<char>>) -> bool {
    exists|li: int| 0 <= li < e.lines.len() && line_matches(e.lines[li], kws)
}

/// The subsequence of `files`, in order and with duplicates kept, whose
/// entries match some keyword of `kws`.
pub open spec fn spec_filter(files: Seq<FileEntryView>, kws: Seq<Seq<char>>) -> Seq<FileEntryView>
    decreases files.len(),
{
    if files.len() == 0 {
        Seq::empty()
    } else if entry_matches(files.last(), kws) {
        spec_filter(files.drop_last(), kws).push(files.last())
    } else {
        spec_filter(files.drop_last(), kws)
    }
}

/// `folded` holds, position for position, the case-folded keywords `kws`.
pub open spec fn folded_keywords(folded: Seq<Seq<char>>, kws: Seq<Seq<char>>) -> bool {
    &&& folded.len() == kws.len()
    &&& forall|i: int| 0 <= i < kws.len() ==> folded[i] == lower_of(kws[i])
}

/// Case-folds every keyword once, up front.
fn fold_keywords(keywords: &Vec<String>) -> (r: Vec<String>)
    ensures
        folded_keywords(str_views(r@), str_views(keywords@)),
{
    let mut r: Vec<String> = Vec::new();
    let mut i: usize = 0;
    while i < keywords.len()
        invariant
            i <= keywords@.len(),
            r@.len() == i,
            forall|k: int| 0 <= k < i ==> r@[k]@ == lower_of(keywords@[k]@),
        decreases keywords@.len() - i,
    {
        r.push(lowercase(keywords[i].as_str()));
        i = i + 1;
    }
    r
}

/// Does this line, case-folded, contain one of the (already folded) keywords?
fn line_has_keyword(line: &str, folded: &Vec<String>, kws: Ghost<Seq<Seq<char>>>) -> (r: bool)
    requires
        folded_keywords(str_views(folded@), kws@),
    ensures
        r == line_matches(line@, kws@),
{
    let lowered = lowercase(line);
    let mut ki: usize = 0;
    while ki < folded.len()
        invariant
            folded_keywords(str_views(folded@), kws@),
            lowered@ == lower_of(line@),
            ki <= folded@.len(),
            forall|t: int| 0 <= t < ki ==> !seq_contains(lower_of(line@), lower_of(kws@[t])),
        decreases folded@.len() - ki,
    {
        proof {
            assert(str_views(folded@)[ki as int] == folded@[ki as int]@);
        }
        if str_contains(lowered.as_str(), folded[ki].as_str()) {
            return true;
        }
        ki = ki + 1;
    }
    false
}

/// Scans the entry's lines in order, stopping at the first match.
fn entry_has_keyword(e: &FileEntry, folded: &Vec<String>, kws: Ghost<Seq<Seq<char>>>) -> (r: bool)
    requires
        folded_keywords(str_views(folded@), kws@),
    ensures
        r == entry_matches(e@, kws@),
{
    let mut li: usize = 0;
    while li < e.lines.len()
        invariant
            folded_keywords(str_views(folded@), kws@),
            li <= e.lines@.len(),
            forall|t: int| 0 <= t < li ==> !line_matches(e@.lines[t], kws@),
        decreases e.lines@.len() - li,
    {
        proof {
            assert(e@.lines[li as int] == e.lines@[li as int]@);
        }
        if line_has_keyword(e.lines[li].as_str(), folded, kws) {
            return true;
        }
        li = li + 1;
    }
    false
}

/// Returns the files whose contents mention, case-insensitively, at least
/// one of `keywords` on at least one line; order and duplicates of the
/// input are preserved.
pub fn filter_files_with_keyword(files: &Vec<FileEntry>, keywords: &Vec<String>) -> (r: Vec<
    FileEntry,
>)
    ensures
        entry_views(r@) == spec_filter(entry_views(files@), str_views(keywords@)),
{
    let ghost kws: Seq<Seq<char>> = str_views(keywords@);
    let folded = fold_keywords(keywords);
    let mut r: Vec<FileEntry> = Vec::new();
    let mut i: usize = 0;
    while i < files.len()
        invariant
            folded_keywords(str_views(folded@), kws),
            kws == str_views(keywords@),
            i <= files@.len(),
            entry_views(r@) == spec_filter(entry_views(files@).take(i as int), kws),
        decreases files@.len() - i,
    {
        let ghost prefix = entry_views(files@).take(i as int);
        if entry_has_keyword(&files[i], &folded, Ghost(kws)) {
            r.push(files[i].duplicate());
        }
        proof {
            let next = entry_views(files@).take(i + 1);
            assert(next.drop_last() =~= prefix);
            assert(next.last() == files@[i as int]@);
            assert(entry_views(r@) =~= spec_filter(next, kws));
        }
        i = i + 1;
    }
    proof {
        assert(entry_views(files@).take(files@.len() as int) =~= entry_views(files@));
    }
    r
}

/// Every entry that the filter keeps matches some keyword.
pub proof fn lemma_filter_all_match(files: Seq<FileEntryView>, kws: Seq<Seq<char>>)
    ensures
        forall|i: int|
            0 <= i < spec_filter(files, kws).len() ==> entry_matches(
                #[trigger] spec_filter(files, kws)[i],
                kws,
            ),
    decreases files.len(),
{
    if files.len() > 0 {
        lemma_filter_all_match(files.drop_last(), kws);
        let sub = spec_filter(files.drop_last(), kws);
        if entry_matches(files.last(), kws) {
            assert forall|i: int| 0 <= i < spec_filter(files, kws).len() implies entry_matches(
                spec_filter(files, kws)[i],
                kws,
            ) by {
                if i < sub.len() {
                    assert(spec_filter(files, kws)[i] == sub[i]);
                } else {
                    assert(spec_filter(files, kws)[i] == files.last());
                }
            }
        }
    }
}

/// A file appears in the filter's result iff it appears in the input and
/// some of its lines, case-folded, contains some keyword, case-folded.
pub proof fn lemma_filter_membership(files: Seq<FileEntryView>, kws: Seq<Seq<char>>, e: FileEntryView)
    ensures
        spec_filter(files, kws).contains(e) <==> (files.contains(e) && entry_matches(e, kws)),
    decreases files.len(),
{
    if files.len() > 0 {
        lemma_filter_membership(files.drop_last(), kws, e);
        assert(files.contains(e) <==> (files.drop_last().contains(e) || files.last() == e)) by {
            if files.contains(e) {
                let i = choose|i: int| 0 <= i < files.len() && files[i] == e;
                if i < files.len() - 1 {
                    assert(files.drop_last()[i] == e);
                }
            }
            if files.drop_last().contains(e) {
                let i = choose|i: int|
                    0 <= i < files.drop_last().len() && files.drop_last()[i] == e;
                assert(files[i] == e);
            }
        }
        if entry_matches(files.last(), kws) {
            let sub = spec_filter(files.drop_last(), kws);
            assert(spec_filter(files, kws).contains(e) <==> (sub.contains(e) || files.last()
                == e)) by {
                if spec_filter(files, kws).contains(e) {
                    let i = choose|i: int|
                        0 <= i < spec_filter(files, kws).len() && spec_filter(files, kws)[i] == e;
                    if i < sub.len() {
                        assert(sub[i] == e);
                    }
                }
                if sub.contains(e) {
                    let i = choose|i: int| 0 <= i < sub.len() && sub[i] == e;
                    assert(spec_filter(files, kws)[i] == e);
                }
                assert(spec_filter(files, kws).last() == files.last());
            }
        }
    }
}

/// Filtering a sequence all of whose entries already match leaves it unchanged.
proof fn lemma_filter_of_matching(files: Seq<FileEntryView>, kws: Seq<Seq<char>>)
    requires
        forall|i: int| 0 <= i < files.len() ==> entry_matches(#[trigger] files[i], kws),
    ensures
        spec_filter(files, kws) == files,
    decreases files.len(),
{
    if files.len() > 0 {
        lemma_filter_of_matching(files.drop_last(), kws);
        assert(entry_matches(files[files.len() - 1], kws));
        assert(spec_filter(files, kws) =~= files);
    } else {
        assert(spec_filter(files, kws) =~= files);
    }
}

/// The keyword filter is idempotent: filtering an already-filtered result
/// by the same keywords returns it unchanged.
pub proof fn lemma_filter_idempotent(files: Seq<FileEntryView>, kws: Seq<Seq<char>>)
    ensures
        spec_filter(spec_filter(files, kws), kws) == spec_filter(files, kws),
{
    lemma_filter_all_match(files, kws);
    lemma_filter_of_matching(spec_filter(files, kws), kws);
}

} // verus!
