//! Numbers of bytes as people read them.

use vstd::prelude::*;

verus! {

/// A number of bytes as indicatif prints it.
pub uninterp spec fn human_bytes_text(bytes: u64) -> Seq<char>;

/// `indicatif::HumanBytes`, printed: the number with a unit that fits its
/// size. What is printed is named.
#[verifier::external_body]
pub(crate) fn human_bytes(bytes: u64) -> (r: String)
    ensures
        r@ == human_bytes_text(bytes),
{
    format!("{}", indicatif::HumanBytes(bytes))
}

} // verus!
