//! Identifier generation and path construction for scene-graph nodes.

use vstd::prelude::*;

verus! {

/// Relies on nanoid::format with the URL-safe alphabet: the result is an id
/// of exactly 21 characters drawn from that alphabet; which characters come
/// out depends on the process random source, so nothing more is stated.
#[verifier::external_body]
pub(crate) fn generate_uid() -> (r: String)
    ensures
        r@.len() == 21,
{
    nanoid::format(nanoid::rngs::default, &nanoid::alphabet::SAFE, 21)
}

/// Relies on the format macro of std: joins the parent path and the name
/// with a single slash between them.
#[verifier::external_body]
pub(crate) fn join_path(parent: &String, name: &String) -> (r: String)
    ensures
        r@ == parent@ + seq!['/'] + name@,
{
    format!("{}/{}", parent, name)
}

} // verus!
