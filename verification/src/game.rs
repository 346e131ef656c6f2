//! Names for structures of the host that are only ever pointed to.

use vstd::prelude::*;

verus! {

/// The host's swap chain wrapper. Nothing of it is read here.
#[derive(Clone, Copy, Debug, PartialEq, Eq, Structural)]
pub struct ZRenderSwapChain {}

} // verus!
