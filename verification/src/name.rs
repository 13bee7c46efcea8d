//! Dotted protobuf names.

use vstd::prelude::*;
use vstd::string::StringExecFns;

verus! {

/// Join two dotted names, leaving out the dot when either is empty.
pub open spec fn spec_concat_paths(a: Seq<char>, b: Seq<char>) -> Seq<char> {
    if a.len() == 0 {
        b
    } else if b.len() == 0 {
        a
    } else {
        a + seq!['.'] + b
    }
}

/// Join two dotted names, leaving out the dot when either is empty.
pub fn concat_paths(a: &str, b: &str) -> (r: String)
    ensures
        r@ == spec_concat_paths(a@, b@),
{
    if a.is_empty() {
        b.to_owned()
    } else if b.is_empty() {
        a.to_owned()
    } else {
        let mut r = a.to_owned();
        r.append(".");
        r.append(b);
        proof {
            reveal_strlit(".");
        }
        r
    }
}

} // verus!
