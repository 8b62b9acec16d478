//! Small helpers shared across the crate.

use vstd::prelude::*;

verus! {

use vstd::string::StringExecFns;

/// The strings joined with the separator between consecutive elements.
pub open spec fn joined_v(items: Seq<Seq<char>>, sep: Seq<char>) -> Seq<char>
    decreases items.len(),
{
    if items.len() == 0 {
        Seq::empty()
    } else if items.len() == 1 {
        items[0]
    } else {
        joined_v(items.drop_last(), sep) + sep + items.last()
    }
}

/// Joins the strings with the separator; an empty list gives `None`.
pub fn join(items: &Vec<String>, sep: &str) -> (r: Option<String>)
    ensures
        items@.len() == 0 <==> r is None,
        r is Some ==> r->0@ == joined_v(items@.map_values(|s: String| s@), sep@),
{
    let ghost sv = items@.map_values(|s: String| s@);
    if items.len() == 0 {
        return None;
    }
    let len: usize = items.len();
    let mut acc: String = items[0].clone();
    proof {
        assert(sv.take(1) =~= seq![sv[0]]);
        assert(joined_v(sv.take(1), sep@) == sv[0]);
    }
    for k in 1..len
        invariant
            len == items@.len(),
            sv == items@.map_values(|s: String| s@),
            sv.len() == len,
            acc@ == joined_v(sv.take(k as int), sep@),
    {
        acc.append(sep);
        acc.append(items[k].as_str());
        proof {
            assert(sv.take(k + 1).drop_last() =~= sv.take(k as int));
            assert(sv.take(k + 1).last() == sv[k as int]);
        }
    }
    proof {
        assert(sv.take(len as int) =~= sv);
    }
    Some(acc)
}

} // verus!
