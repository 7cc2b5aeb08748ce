//! The characters of a string, one by one.

use vstd::prelude::*;
use vstd::std_specs::iter::IteratorSpec;
use vstd::string::*;

verus! {

/// The characters of `s`, in their order.
pub fn chars_of(s: &str) -> (r: Vec<char>)
    ensures
        r@ == s@,
{
    broadcast use group_string_axioms;

    let mut rest = s.chars();
    let mut seen: Vec<char> = Vec::new();
    loop
        invariant
            seen@ + rest.remaining() == s@,
            rest.obeys_prophetic_iter_laws(),
            rest.decrease() is Some,
        ensures
            seen@ == s@,
        decreases rest.decrease()->0,
    {
        match rest.next() {
            Some(c) => {
                seen.push(c);
                assert(seen@ + rest.remaining() =~= s@);
            },
            None => {
                assert(seen@ + rest.remaining() =~= seen@);
                break ;
            },
        }
    }
    seen
}

} // verus!
