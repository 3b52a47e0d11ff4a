//! The in-memory model of a discovered file: its name and its decoded lines.

use vstd::prelude::*;

verus! {

/// A file handed to the keyword filter: its bare name and the lines that
/// could be decoded from its contents (a line that failed to decode is
/// absent, so it can never contribute a match).
pub struct FileEntry {
    pub name: String,
    pub lines: Vec<String>,
}

/// The mathematical value of a `FileEntry`.
pub struct FileEntryView {
    pub name: Seq<char>,
    pub lines: Seq<Seq<char>>,
}

impl View for FileEntry {
    type V = FileEntryView;

    open spec fn view(&self) -> FileEntryView {
        FileEntryView { name: self.name@, lines: self.lines@.map_values(|l: String| l@) }
    }
}

/// The views of a sequence of entries.
pub open spec fn entry_views(s: Seq<FileEntry>) -> Seq<FileEntryView> {
    s.map_values(|e: FileEntry| e@)
}

/// The views of a sequence of strings.
pub open spec fn str_views(s: Seq<String>) -> Seq<Seq<char>> {
    s.map_values(|x: String| x@)
}

/// The names of a sequence of entry views.
pub open spec fn entry_names(s: Seq<FileEntryView>) -> Seq<Seq<char>> {
    s.map_values(|e: FileEntryView| e.name)
}

impl FileEntry {
    /// A fresh entry with the same name and the same lines.
    pub fn duplicate(&self) -> (r: FileEntry)
        ensures
            r@ == self@,
    {
        let mut lines: Vec<String> = Vec::new();
        let mut i: usize = 0;
        while i < self.lines.len()
            invariant
                i <= self.lines@.len(),
                lines@.len() == i,
                forall|k: int| 0 <= k < i ==> lines@[k] == self.lines@[k],
            decreases self.lines@.len() - i,
        {
            lines.push(self.lines[i].clone());
            i = i + 1;
        }
        proof {
            assert(lines@ =~= self.lines@);
        }
        FileEntry { name: self.name.clone(), lines }
    }
}

} // verus!
