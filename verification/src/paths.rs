use vstd::prelude::*;

use std::path::PathBuf;

verus! {

/// `std::path::PathBuf`, an owned filesystem path; carried through unread.
#[verifier::external_type_specification]
#[verifier::external_body]
pub struct ExPathBuf(PathBuf);

} // verus!
