//! Alternate names that carry a visibility mark.
use vstd::prelude::*;
use crate::text::texts;

verus! {

/// The names of the visible aliases, in their stored order.
pub open spec fn visible(s: Seq<(String, bool)>) -> Seq<Seq<char>>
    decreases s.len(),
{
    if s.len() == 0 {
        seq![]
    } else if s.last().1 {
        visible(s.drop_last()).push(s.last().0@)
    } else {
        visible(s.drop_last())
    }
}

/// The visible alias names of an optional alias list.
pub open spec fn visible_of(a: Option<Vec<(String, bool)>>) -> Seq<Seq<char>> {
    match a {
        Some(v) => visible(v@),
        None => seq![],
    }
}

/// The names of the visible aliases, in their stored order.
pub fn visible_names(a: &Option<Vec<(String, bool)>>) -> (r: Vec<String>)
    ensures
        texts(r@) == visible_of(*a),
{
    let mut out: Vec<String> = Vec::new();
    match a {
        None => {
            assert(texts(out@) =~= seq![]);
        },
        Some(v) => {
            let mut i: usize = 0;
            assert(v@.subrange(0, 0) =~= seq![]);
            assert(texts(out@) =~= seq![]);
            while i < v.len()
                invariant
                    i <= v.len(),
                    texts(out@) == visible(v@.subrange(0, i as int)),
                decreases v.len() - i,
            {
                let ghost prev = out@;
                assert(v@.subrange(0, i + 1).drop_last() =~= v@.subrange(0, i as int));
                if v[i].1 {
                    out.push(v[i].0.clone());
                    assert(texts(out@) =~= texts(prev).push(v@[i as int].0@));
                }
                i = i + 1;
            }
            assert(v@.subrange(0, v@.len() as int) =~= v@);
        },
    }
    out
}

} // verus!
