//! The admin gate: privileged routes admit a request only when its
//! token header equals the configured admin secret exactly.

use vstd::prelude::*;

verus! {

/// A request is admitted to the admin scope exactly when it presents a
/// header equal to the configured token.
pub open spec fn spec_admitted(header: Option<Seq<char>>, token: Seq<char>) -> bool {
    header == Some(token)
}

/// The text a request's token header carries, when it carries one.
pub open spec fn header_view(header: Option<&String>) -> Option<Seq<char>> {
    match header {
        Some(h) => Some(h@),
        None => None,
    }
}

/// Decide admission to the admin scope from the request's token header
/// and the configured admin secret.
pub fn admitted(header: Option<&String>, token: &String) -> (r: bool)
    ensures
        r == spec_admitted(header_view(header), token@),
{
    match header {
        Some(h) => *h == *token,
        None => false,
    }
}

/// A header value that differs from the configured token in any way is
/// denied exactly as a request with no header at all is.
pub proof fn lemma_gate_uniform_denial(h: Seq<char>, token: Seq<char>)
    requires
        h != token,
    ensures
        spec_admitted(Some(h), token) == spec_admitted(None, token),
        !spec_admitted(Some(h), token),
{
}

} // verus!
