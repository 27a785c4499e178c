//! Why the backend could not be started.

use vstd::prelude::*;

verus! {

/// The step at which starting the backend failed.
#[derive(Clone, Copy, Debug, PartialEq, Eq, Hash, Structural)]
pub enum InitError {
    /// The event loop could not be created.
    EventLoop,
    /// The Wayland display could not be created.
    Display,
    /// No libseat session could be opened.
    Session,
    /// The configured device path does not lead to a DRM node.
    GpuPath,
    /// udev could not be asked for the primary GPU.
    PrimaryGpu,
    /// udev could not be asked for all GPUs.
    AllGpus,
    /// No GPU of the seat is a DRM node.
    NoUsableGpu,
    /// The GPU manager could not be created.
    GpuManager,
    /// The udev monitor could not be created.
    UdevBackend,
    /// libinput did not take the seat.
    AssignSeat,
    /// The event loop did not take the libinput source.
    LibinputSource,
    /// The event loop did not take the session notifier.
    SessionSource,
    /// The device number of the primary device is no DRM node.
    PrimaryNode,
    /// The primary device could not be brought up.
    PrimaryDevice,
    /// Neither the primary GPU nor its card node has a renderer.
    Renderer,
    /// The default dmabuf feedback could not be built.
    DmabufFeedback,
    /// The event loop did not take the channel of render durations.
    RenderDurations,
    /// The event loop did not take the udev monitor.
    UdevSource,
}

impl InitError {
    /// What the user is told of the failure.
    pub open spec fn text(self) -> Seq<char> {
        match self {
            InitError::EventLoop => "Failed to create event loop"@,
            InitError::Display => "Failed to create Wayland display"@,
            InitError::Session => "Failed to intialize libseat session"@,
            InitError::GpuPath => "Invalid DRM device path for GPU"@,
            InitError::PrimaryGpu => "Failed to find primary GPU"@,
            InitError::AllGpus => "Failed to query all GPUS"@,
            InitError::NoUsableGpu => "No usable GPU found"@,
            InitError::GpuManager => "Failed to initialize GPU manager"@,
            InitError::UdevBackend => "Failed to intialize udev backend"@,
            InitError::AssignSeat => "Failed to assign libinput context to seat"@,
            InitError::LibinputSource => "Failed to register libinput event source"@,
            InitError::SessionSource => "Failed to register session notifier event source"@,
            InitError::PrimaryNode => "Failed to get primary GPU node"@,
            InitError::PrimaryDevice => "Failed to initialize primary GPU node"@,
            InitError::Renderer => "Failed to get renderer for primary GPU"@,
            InitError::DmabufFeedback => "Failed to build default DMABUF feedback"@,
            InitError::RenderDurations => "Failed to register GPU render duration channel"@,
            InitError::UdevSource => "Failed to register udev event source"@,
        }
    }

    /// Says in words what failed.
    pub fn message(self) -> (message: &'static str)
        ensures
            message@ == self.text(),
    {
        match self {
            InitError::EventLoop => "Failed to create event loop",
            InitError::Display => "Failed to create Wayland display",
            InitError::Session => "Failed to intialize libseat session",
            InitError::GpuPath => "Invalid DRM device path for GPU",
            InitError::PrimaryGpu => "Failed to find primary GPU",
            InitError::AllGpus => "Failed to query all GPUS",
            InitError::NoUsableGpu => "No usable GPU found",
            InitError::GpuManager => "Failed to initialize GPU manager",
            InitError::UdevBackend => "Failed to intialize udev backend",
            InitError::AssignSeat => "Failed to assign libinput context to seat",
            InitError::LibinputSource => "Failed to register libinput event source",
            InitError::SessionSource => "Failed to register session notifier event source",
            InitError::PrimaryNode => "Failed to get primary GPU node",
            InitError::PrimaryDevice => "Failed to initialize primary GPU node",
            InitError::Renderer => "Failed to get renderer for primary GPU",
            InitError::DmabufFeedback => "Failed to build default DMABUF feedback",
            InitError::RenderDurations => "Failed to register GPU render duration channel",
            InitError::UdevSource => "Failed to register udev event source",
        }
    }
}

} // verus!
