//! Fresh ids.

use vstd::prelude::*;

verus! {

/// A digit of a hexadecimal number, in lower case.
pub open spec fn hex_digit(c: char) -> bool {
    ('0' <= c <= '9') || ('a' <= c <= 'f')
}

/// The text is an id as they are written: five groups of hexadecimal digits with
/// dashes between them.
pub open spec fn is_id(s: Seq<char>) -> bool {
    &&& s.len() == 36
    &&& forall|i: int|
        0 <= i < 36 ==> (if i == 8 || i == 13 || i == 18 || i == 23 {
            #[trigger] s[i] == '-'
        } else {
            hex_digit(s[i])
        })
}

/// A fresh id: `uuid`'s `Uuid::new_v4`, written by its `to_string`. Which id comes
/// out is left to chance; it is written in the hyphenated form.
#[verifier::external_body]
pub(crate) fn fresh_id() -> (r: String)
    ensures
        is_id(r@),
{
    uuid::Uuid::new_v4().to_string()
}

} // verus!
