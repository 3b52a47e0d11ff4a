//! Rendering the final report: one file name per line, newline-terminated.

use vstd::prelude::*;
use vstd::string::StringExecFns;
use crate::model::str_views;

verus! {

/// The report text: the names in order, each followed by a line terminator.
pub open spec fn spec_render(names: Seq<Seq<char>>) -> Seq<char>
    decreases names.len(),
{
    if names.len() == 0 {
        Seq::empty()
    } else {
        spec_render(names.drop_last()) + names.last() + seq!['\n']
    }
}

/// The text to persist for a final report: every name on a line of its own,
/// in report order; an empty report renders as empty text.
pub fn render_report(names: &Vec<String>) -> (r: String)
    ensures
        r@ == spec_render(str_views(names@)),
{
    let mut out = String::new();
    let mut i: usize = 0;
    while i < names.len()
        invariant
            i <= names@.len(),
            out@ == spec_render(str_views(names@).take(i as int)),
        decreases names@.len() - i,
    {
        let ghost prefix = str_views(names@).take(i as int);
        out.append(names[i].as_str());
        out.append("\n");
        proof {
            reveal_strlit("\n");
            let next = str_views(names@).take(i + 1);
            assert(next.drop_last() =~= prefix);
            assert(next.last() == names@[i as int]@);
            assert("\n"@ =~= seq!['\n']);
            assert(out@ =~= spec_render(next));
        }
        i = i + 1;
    }
    proof {
        let all = str_views(names@);
        assert(all.take(all.len() as int) =~= all);
    }
    out
}

} // verus!
