//! Small helpers on text: comparison with literals and joining fragments.
use vstd::prelude::*;

verus! {

/// The concatenation of all fragments, in order.
pub open spec fn concat_all(s: Seq<Seq<char>>) -> Seq<char>
    decreases s.len(),
{
    if s.len() == 0 {
        Seq::empty()
    } else {
        concat_all(s.drop_last()) + s.last()
    }
}

/// The views of a sequence of strings.
pub open spec fn views(s: Seq<String>) -> Seq<Seq<char>> {
    s.map_values(|x: String| x@)
}

/// Whether `s` holds exactly the text of `lit`.
pub fn text_is(s: &String, lit: &str) -> (r: bool)
    ensures
        r == (s@ == lit@),
{
    let l = String::from_str(lit);
    *s == l
}

/// Joins the fragments in order.
pub fn join_all(parts: &Vec<String>) -> (r: String)
    ensures
        r@ == concat_all(views(parts@)),
{
    let mut out = String::new();
    let mut i: usize = 0;
    while i < parts.len()
        invariant
            i <= parts.len(),
            out@ == concat_all(views(parts@.take(i as int))),
        decreases parts.len() - i,
    {
        proof {
            assert(views(parts@.take(i as int + 1)).drop_last() =~= views(parts@.take(i as int)));
        }
        out.append(parts[i].as_str());
        i = i + 1;
    }
    proof {
        assert(parts@.take(i as int) =~= parts@);
    }
    out
}

} // verus!
