//! The two-stage pipeline: message files mentioning the marker term yield
//! derived keywords (their stems), which in turn select the logic files.

use vstd::prelude::*;
use vstd::string::{StrSliceExecFns, StringExecFns};
use crate::filter::{filter_files_with_keyword, spec_filter};
use crate::model::{entry_names, entry_views, str_views, FileEntry, FileEntryView};

verus! {

/// The name with its suffix removed: its first `name.len() - suffix.len()`
/// characters, or empty where the suffix is the longer of the two.
pub open spec fn spec_stem(name: Seq<char>, suffix: Seq<char>) -> Seq<char> {
    if suffix.len() <= name.len() {
        name.take(name.len() - suffix.len())
    } else {
        Seq::empty()
    }
}

/// The keywords derived from a sequence of names: each name's stem, in
/// order, duplicates kept, empty stems left out.
pub open spec fn spec_derive(names: Seq<Seq<char>>, suffix: Seq<char>) -> Seq<Seq<char>>
    decreases names.len(),
{
    if names.len() == 0 {
        Seq::empty()
    } else if spec_stem(names.last(), suffix).len() > 0 {
        spec_derive(names.drop_last(), suffix).push(spec_stem(names.last(), suffix))
    } else {
        spec_derive(names.drop_last(), suffix)
    }
}

/// The name with its suffix removed.
fn stem_of(name: &str, suffix: &str) -> (r: String)
    ensures
        r@ == spec_stem(name@, suffix@),
{
    let name_len = name.unicode_len();
    let suffix_len = suffix.unicode_len();
    if suffix_len <= name_len {
        let stem = name.substring_char(0, name_len - suffix_len);
        proof {
            assert(stem@ =~= spec_stem(name@, suffix@));
        }
        String::from_str(stem)
    } else {
        String::new()
    }
}

/// One keyword per surviving file: the file name's stem.  An empty stem
/// would match every line, so it is left out.
pub fn derive_keywords(files: &Vec<FileEntry>, suffix: &str) -> (r: Vec<String>)
    ensures
        str_views(r@) == spec_derive(entry_names(entry_views(files@)), suffix@),
{
    let mut r: Vec<String> = Vec::new();
    let mut i: usize = 0;
    while i < files.len()
        invariant
            i <= files@.len(),
            str_views(r@) == spec_derive(entry_names(entry_views(files@)).take(i as int), suffix@),
        decreases files@.len() - i,
    {
        let ghost prefix = entry_names(entry_views(files@)).take(i as int);
        let stem = stem_of(files[i].name.as_str(), suffix);
        if stem.unicode_len() > 0 {
            r.push(stem);
        }
        proof {
            let next = entry_names(entry_views(files@)).take(i + 1);
            assert(next.drop_last() =~= prefix);
            assert(next.last() == files@[i as int]@.name);
            assert(str_views(r@) =~= spec_derive(next, suffix@));
        }
        i = i + 1;
    }
    proof {
        let all = entry_names(entry_views(files@));
        assert(all.take(all.len() as int) =~= all);
    }
    r
}

/// The fixed marker term the message files must mention.
pub open spec fn marker_keywords() -> Seq<Seq<char>> {
    seq!["Double"@]
}

/// The suffix that names a message-definition file, and that stem
/// extraction removes.
pub open spec fn message_suffix() -> Seq<char> {
    "Msg.java"@
}

/// The final report for a given tree: filter the message files by the
/// marker term, derive keywords from the survivors' stems, filter the logic
/// files by those keywords, and keep the survivors' names.
pub open spec fn spec_pipeline(msgs: Seq<FileEntryView>, logics: Seq<FileEntryView>) -> Seq<
    Seq<char>,
> {
    entry_names(
        spec_filter(
            logics,
            spec_derive(entry_names(spec_filter(msgs, marker_keywords())), message_suffix()),
        ),
    )
}

/// Runs the whole pipeline on a tree already read into memory: `msg_files`
/// are the files found under the message suffix, `logic_files` those found
/// under the logic suffixes, both with their decoded lines.
pub fn run_pipeline(msg_files: &Vec<FileEntry>, logic_files: &Vec<FileEntry>) -> (r: Vec<String>)
    ensures
        str_views(r@) == spec_pipeline(entry_views(msg_files@), entry_views(logic_files@)),
{
    let mut marker: Vec<String> = Vec::new();
    marker.push(String::from_str("Double"));
    proof {
        assert(str_views(marker@) =~= marker_keywords());
    }
    let survivors = filter_files_with_keyword(msg_files, &marker);
    let derived = derive_keywords(&survivors, "Msg.java");
    let finalists = filter_files_with_keyword(logic_files, &derived);
    let mut r: Vec<String> = Vec::new();
    let mut i: usize = 0;
    while i < finalists.len()
        invariant
            i <= finalists@.len(),
            str_views(r@) == entry_names(entry_views(finalists@)).take(i as int),
        decreases finalists@.len() - i,
    {
        let ghost prefix = entry_names(entry_views(finalists@)).take(i as int);
        r.push(finalists[i].name.clone());
        proof {
            let next = entry_names(entry_views(finalists@)).take(i + 1);
            assert(next.drop_last() =~= prefix);
            assert(next.last() == finalists@[i as int]@.name);
            assert(str_views(r@) =~= next);
        }
        i = i + 1;
    }
    proof {
        let all = entry_names(entry_views(finalists@));
        assert(all.take(all.len() as int) =~= all);
    }
    r
}

/// The pipeline is deterministic: the same tree yields the same report,
/// content and order alike; no other factor participates.
pub proof fn lemma_pipeline_deterministic(
    msgs1: Seq<FileEntryView>,
    logics1: Seq<FileEntryView>,
    msgs2: Seq<FileEntryView>,
    logics2: Seq<FileEntryView>,
)
    requires
        msgs1 == msgs2,
        logics1 == logics2,
    ensures
        spec_pipeline(msgs1, logics1) == spec_pipeline(msgs2, logics2),
{
}

/// An empty tree yields an empty report.
pub proof fn lemma_pipeline_empty()
    ensures
        spec_pipeline(Seq::empty(), Seq::empty()) == Seq::<Seq<char>>::empty(),
{
    assert(entry_names(Seq::empty()) =~= Seq::<Seq<char>>::empty());
}

/// The directory the run works on: the first argument after the program
/// name, or nothing where no argument was given (a usage error).
pub fn select_root(args: &Vec<String>) -> (r: Option<String>)
    ensures
        (r is Some) == (args@.len() >= 2),
        args@.len() >= 2 ==> r->Some_0@ == args@[1]@,
{
    if args.len() >= 2 {
        Some(args[1].clone())
    } else {
        None
    }
}

} // verus!
