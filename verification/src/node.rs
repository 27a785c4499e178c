//! Names of devices and of the surfaces that they drive.

use vstd::prelude::*;

verus! {

/// A DRM device node, known by its device number.
///
/// The type of a node (primary, control or render) follows from the minor half
/// of its device number, so two nodes are the same node exactly when their
/// device numbers are equal.
#[derive(Clone, Copy, Debug, PartialEq, Eq, Hash, Structural)]
pub struct DrmNode {
    pub dev_id: u64,
}

/// Where an output is driven: the device, and the CRTC on that device.
#[derive(Clone, Copy, Debug, PartialEq, Eq, Hash, Structural)]
pub struct UdevOutputId {
    pub device_id: DrmNode,
    pub crtc: u32,
}

} // verus!
