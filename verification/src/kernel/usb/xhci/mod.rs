pub mod datastructures;
pub mod register;

use vstd::prelude::*;

use self::register::{Capability, Operational, Port};

verus! {

/// A USB 3 host controller: its capability and operational registers and its
/// root hub ports.
pub struct XhciDriver {
    pub capability: Capability,
    pub operational: Operational,
    pub ports: Vec<Port>,
}

/// Where the kernel reaches the physical address `base`: in the window at
/// `0xFFFFFF80_00000000`, unless it already lies there.
pub fn kernel_address(base: u64) -> (ret: u64)
    ensures
        ret == (if base < 0xFFFFFF80_00000000 { base | 0xFFFFFF80_00000000 } else { base }),
{
    if base < 0xFFFFFF80_00000000 {
        base | 0xFFFFFF80_00000000
    } else {
        base
    }
}

} // verus!
