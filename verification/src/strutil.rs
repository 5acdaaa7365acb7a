//! Small trusted bridges between `String`/`&str` and the character
//! sequences the verified string logic works on.

use vstd::prelude::*;

verus! {

/// Relies on str::chars: yields exactly the characters of the string, in
/// order.
#[verifier::external_body]
pub fn str_chars(s: &str) -> (r: Vec<char>)
    ensures
        r@ == s@,
{
    s.chars().collect()
}

/// Relies on String::from_iter over chars: builds the string holding
/// exactly the given characters, in order.
#[verifier::external_body]
pub fn chars_string(v: &Vec<char>) -> (r: String)
    ensures
        r@ == v@,
{
    v.iter().collect()
}

} // verus!
