//! Why a declaration cannot be rewritten.

use vstd::prelude::*;

verus! {

/// A declaration that is refused. Nothing is rewritten then.
#[derive(Clone, Copy, Debug, PartialEq, Eq, Structural)]
pub enum RewriteError {
    /// A method has a receiver that is not its first input, or a receiver that
    /// is not a reference.
    MalformedSignature,
    /// An interface holds a member that is neither a method nor an associated
    /// type.
    UnsupportedMember,
}

} // verus!
