//! What is done when udev reports that a device came, changed or went.

use crate::node::DrmNode;
use std::path::PathBuf;
use vstd::prelude::*;

verus! {

/// What udev reports of a device.
pub enum UdevEvent {
    Added { device_id: u64, path: PathBuf },
    Changed { device_id: u64 },
    Removed { device_id: u64 },
}

/// What is to be done about a report.
pub enum DeviceAction {
    /// Nothing.
    Ignore,
    /// The device that came is no DRM node: it is skipped.
    Skip { device_id: u64 },
    /// Bring the device up.
    Add { node: DrmNode, path: PathBuf },
    /// Look the outputs of the device over again.
    Change { node: DrmNode },
    /// Take the device down.
    Remove { node: DrmNode },
}

/// What a report asks for. While the session is not active nothing is done
/// about any: devices are looked over again when it becomes active.
pub open spec fn spec_device_action(
    session_active: bool,
    event: UdevEvent,
    node: Option<DrmNode>,
) -> DeviceAction {
    if !session_active {
        DeviceAction::Ignore
    } else {
        match (event, node) {
            (UdevEvent::Added { device_id, path }, Some(node)) => DeviceAction::Add { node, path },
            (UdevEvent::Added { device_id, path }, None) => DeviceAction::Skip { device_id },
            (UdevEvent::Changed { device_id }, Some(node)) => DeviceAction::Change { node },
            (UdevEvent::Removed { device_id }, Some(node)) => DeviceAction::Remove { node },
            (_, None) => DeviceAction::Ignore,
        }
    }
}

/// Decides what to do about a report. `node` is the DRM node with the reported
/// device number, where there is one.
pub fn device_action(
    session_active: bool,
    event: UdevEvent,
    node: Option<DrmNode>,
) -> (action: DeviceAction)
    ensures
        action == spec_device_action(session_active, event, node),
        !session_active ==> action is Ignore,
{
    if !session_active {
        return DeviceAction::Ignore;
    }
    match (event, node) {
        (UdevEvent::Added { path, .. }, Some(node)) => DeviceAction::Add { node, path },
        (UdevEvent::Added { device_id, .. }, None) => DeviceAction::Skip { device_id },
        (UdevEvent::Changed { .. }, Some(node)) => DeviceAction::Change { node },
        (UdevEvent::Removed { .. }, Some(node)) => DeviceAction::Remove { node },
        (_, None) => DeviceAction::Ignore,
    }
}

/// While the session is not active, nothing is done about any report: not about
/// a device that came, nor about one that changed, nor about one that went.
pub proof fn law_background_reports_are_ignored(event: UdevEvent, node: Option<DrmNode>)
    ensures
        spec_device_action(false, event, node) == DeviceAction::Ignore,
{
}

/// In an active session a device that came is brought up at its own path, one
/// that changed is looked over, and one that went is taken down, each under the
/// node that was found for it and no other.
pub proof fn law_reports_are_acted_on(device_id: u64, path: PathBuf, node: DrmNode)
    ensures
        spec_device_action(true, UdevEvent::Added { device_id, path }, Some(node)) == (
        DeviceAction::Add { node, path }),
        spec_device_action(true, UdevEvent::Changed { device_id }, Some(node)) == (
        DeviceAction::Change { node }),
        spec_device_action(true, UdevEvent::Removed { device_id }, Some(node)) == (
        DeviceAction::Remove { node }),
{
}

/// A device for which no node is found is never brought up, looked over or taken
/// down. One that came is skipped under its own number.
pub proof fn law_unknown_devices_are_left_alone(device_id: u64, path: PathBuf)
    ensures
        spec_device_action(true, UdevEvent::Added { device_id, path }, None) == (
        DeviceAction::Skip { device_id }),
        spec_device_action(true, UdevEvent::Changed { device_id }, None) == DeviceAction::Ignore,
        spec_device_action(true, UdevEvent::Removed { device_id }, None) == DeviceAction::Ignore,
{
}

} // verus!
