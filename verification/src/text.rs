//! Verified text assembly: joining string lists and turning accumulated
//! characters into owned strings.

use vstd::prelude::*;
use vstd::string::StringExecFns;
use crate::aggregate::strings_view;

verus! {

/// Relies on `String`'s `FromIterator<char>` implementation through
/// `Iterator::collect`: the string holds exactly the characters of the
/// vector, in order.
#[verifier::external_body]
pub fn chars_to_string(v: &Vec<char>) -> (r: String)
    ensures
        r@ == v@,
{
    v.iter().collect()
}

/// The parts joined with `sep` between consecutive parts.
pub open spec fn spec_join(parts: Seq<Seq<char>>, sep: Seq<char>) -> Seq<char>
    decreases parts.len(),
{
    if parts.len() == 0 {
        Seq::empty()
    } else if parts.len() == 1 {
        parts[0]
    } else {
        spec_join(parts.drop_last(), sep) + sep + parts.last()
    }
}

/// Joins the strings with `sep` between consecutive entries.
#[verifier::loop_isolation(false)]
pub fn join_strings(parts: &Vec<String>, sep: &str) -> (r: String)
    ensures
        r@ == spec_join(strings_view(parts@), sep@),
{
    let mut out = String::new();
    let mut i: usize = 0;
    while i < parts.len()
        invariant
            i <= parts@.len(),
            out@ == spec_join(strings_view(parts@).subrange(0, i as int), sep@),
        decreases parts@.len() - i,
    {
        if i > 0 {
            out.append(sep);
        }
        out.append(parts[i].as_str());
        proof {
            let pv = strings_view(parts@);
            assert(pv.subrange(0, i + 1).drop_last() =~= pv.subrange(0, i as int));
            assert(pv.subrange(0, i + 1).last() == parts@[i as int]@);
            if i == 0 {
                assert(out@ =~= spec_join(pv.subrange(0, 1), sep@));
            }
        }
        i += 1;
    }
    proof {
        assert(strings_view(parts@).subrange(0, parts@.len() as int) =~= strings_view(parts@));
    }
    out
}

} // verus!
