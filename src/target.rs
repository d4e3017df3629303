//! The build target that the rewriting applies to.
use vstd::prelude::*;

verus! {

/// The triplet of the sandboxed bytecode target, `wasm32-unknown-unknown`.
pub open spec fn bytecode_triplet() -> Seq<char> {
    "wasm32-unknown-unknown"@
}

/// Whether a build for `triplet` produces artifacts that the rewriting applies
/// to. A build with no triplet does not.
pub fn is_bytecode_target(triplet: Option<&str>) -> (r: bool)
    ensures
        r == (triplet matches Some(t) && t@ == bytecode_triplet()),
{
    match triplet {
        Some(t) => {
            let given: String = t.to_owned();
            let wanted: String = "wasm32-unknown-unknown".to_owned();
            given == wanted
        },
        None => false,
    }
}

} // verus!
