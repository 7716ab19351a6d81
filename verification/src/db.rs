//! Identifiers shared with the login and storage collaborators.

use vstd::prelude::*;

verus! {

/// A user's numeric account identifier at the login provider.
#[derive(Clone, Copy, PartialEq, Eq, Structural, Debug)]
pub struct GithubId(pub i64);

} // verus!
