use vstd::prelude::*;

verus! {

/// Whether two strings hold the same characters.
pub fn text_is(s: &str, expected: &str) -> (r: bool)
    ensures
        r == (s@ == expected@),
{
    let a = s.to_owned();
    let b = expected.to_owned();
    a == b
}

} // verus!
