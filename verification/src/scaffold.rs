//! The region labels of the first, scaffold-stage recommendation map.

use vstd::prelude::*;

verus! {

/// Region label of the scaffold-stage map.
#[derive(Debug, Clone, Copy, PartialEq, Eq, Structural)]
pub enum RegionType {
    Stable,
    Transient,
    Envelope,
    Mixed,
}

} // verus!
