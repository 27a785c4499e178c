use std::path::PathBuf;
use xfwl4_udev::clients::{egl_support, sees_output_control, EglBindError, EglSupport};
use xfwl4_udev::config::{renderer_capabilities, Capability};
use xfwl4_udev::enumerate::plan_devices;
use xfwl4_udev::error::InitError;
use xfwl4_udev::gpu::{GpuQuery, GpuReply, GpuSelection};
use xfwl4_udev::hotplug::{device_action, DeviceAction, UdevEvent};
use xfwl4_udev::node::DrmNode;

const GPU: DrmNode = DrmNode { dev_id: 0xe280 };
const CARD: DrmNode = DrmNode { dev_id: 0xe200 };

fn path(name: &str) -> PathBuf {
    PathBuf::from(format!("/dev/dri/{}", name))
}

#[test]
fn instancing_can_be_disabled() {
    let supported = vec![
        Capability::Blit,
        Capability::Instancing,
        Capability::Fencing,
        Capability::Instancing,
        Capability::Debug,
    ];
    assert_eq!(
        renderer_capabilities(supported.clone(), true),
        vec![Capability::Blit, Capability::Fencing, Capability::Debug]
    );
    assert_eq!(renderer_capabilities(supported.clone(), false), supported);
    assert!(renderer_capabilities(vec![Capability::Instancing], true).is_empty());
}

#[test]
fn primary_device_comes_first() {
    let plan = plan_devices(&vec![1, 2, GPU.dev_id, 3], None, GPU);
    assert_eq!(plan.primary, Some(2));
    assert_eq!(plan.others, vec![0, 1, 3]);
}

#[test]
fn card_node_is_primary_too() {
    let plan = plan_devices(&vec![1, CARD.dev_id, GPU.dev_id], Some(CARD), GPU);
    assert_eq!(plan.primary, Some(1));
    assert_eq!(plan.others, vec![0, 2]);
}

#[test]
fn no_primary_device() {
    let plan = plan_devices(&vec![1, CARD.dev_id, 2], None, GPU);
    assert_eq!(plan.primary, None);
    assert_eq!(plan.others, vec![0, 1, 2]);
}

#[test]
fn repeated_primary_number_is_tried_once() {
    let plan = plan_devices(&vec![GPU.dev_id, 1, GPU.dev_id, 1], None, GPU);
    assert_eq!(plan.primary, Some(0));
    assert_eq!(plan.others, vec![1, 3]);
}

#[test]
fn configured_gpu_is_used() {
    let (selection, query) = GpuSelection::start(Some(path("card1")));
    assert!(matches!(query, GpuQuery::OpenConfigured(p) if p == path("card1")));
    let (_, query) = selection.step(GpuReply::Node(Some(CARD)));
    assert!(matches!(query, GpuQuery::Finished(Ok(node)) if node == CARD));
}

#[test]
fn configured_gpu_has_no_fallback() {
    let (selection, _) = GpuSelection::start(Some(path("card1")));
    let (selection, query) = selection.step(GpuReply::Node(None));
    assert!(matches!(query, GpuQuery::Finished(Err(InitError::GpuPath))));
    assert!(!selection.awaits(&GpuReply::Node(None)));
}

#[test]
fn render_node_of_primary_gpu_is_used() {
    let (selection, query) = GpuSelection::start(None);
    assert!(matches!(query, GpuQuery::FindPrimary));
    assert!(selection.awaits(&GpuReply::Primary(Err(()))));
    assert!(!selection.awaits(&GpuReply::Node(None)));
    let (selection, query) = selection.step(GpuReply::Primary(Ok(Some(path("card0")))));
    assert!(matches!(query, GpuQuery::OpenPrimary(p) if p == path("card0")));
    let (selection, query) = selection.step(GpuReply::Node(Some(CARD)));
    assert!(matches!(query, GpuQuery::RenderNode(node) if node == CARD));
    let (_, query) = selection.step(GpuReply::Node(Some(GPU)));
    assert!(matches!(query, GpuQuery::Finished(Ok(node)) if node == GPU));
}

#[test]
fn first_gpu_that_opens_is_used() {
    let (selection, _) = GpuSelection::start(None);
    let (selection, _) = selection.step(GpuReply::Primary(Ok(Some(path("card0")))));
    let (selection, _) = selection.step(GpuReply::Node(Some(CARD)));
    let (selection, query) = selection.step(GpuReply::Node(None));
    assert!(matches!(query, GpuQuery::ListAll));
    let paths = vec![path("card0"), path("card1"), path("card2")];
    let (selection, query) = selection.step(GpuReply::All(Ok(paths)));
    assert!(matches!(query, GpuQuery::OpenAny(p) if p == path("card0")));
    let (selection, query) = selection.step(GpuReply::Node(None));
    assert!(matches!(query, GpuQuery::OpenAny(p) if p == path("card1")));
    let (_, query) = selection.step(GpuReply::Node(Some(GPU)));
    assert!(matches!(query, GpuQuery::Finished(Ok(node)) if node == GPU));
}

#[test]
fn primary_gpu_that_does_not_open_is_passed_over() {
    let (selection, _) = GpuSelection::start(None);
    let (selection, _) = selection.step(GpuReply::Primary(Ok(Some(path("card0")))));
    let (_, query) = selection.step(GpuReply::Node(None));
    assert!(matches!(query, GpuQuery::ListAll));
}

#[test]
fn failed_gpu_queries() {
    let (selection, _) = GpuSelection::start(None);
    let (_, query) = selection.step(GpuReply::Primary(Err(())));
    assert!(matches!(query, GpuQuery::Finished(Err(InitError::PrimaryGpu))));

    let (selection, _) = GpuSelection::start(None);
    let (selection, query) = selection.step(GpuReply::Primary(Ok(None)));
    assert!(matches!(query, GpuQuery::ListAll));
    let (_, query) = selection.step(GpuReply::All(Err(())));
    assert!(matches!(query, GpuQuery::Finished(Err(InitError::AllGpus))));
}

#[test]
fn no_usable_gpu() {
    let (selection, _) = GpuSelection::start(None);
    let (selection, _) = selection.step(GpuReply::Primary(Ok(None)));
    let (_, query) = selection.step(GpuReply::All(Ok(vec![])));
    assert!(matches!(query, GpuQuery::Finished(Err(InitError::NoUsableGpu))));

    let (selection, _) = GpuSelection::start(None);
    let (selection, _) = selection.step(GpuReply::Primary(Ok(None)));
    let (selection, _) = selection.step(GpuReply::All(Ok(vec![path("card0")])));
    let (_, query) = selection.step(GpuReply::Node(None));
    assert!(matches!(query, GpuQuery::Finished(Err(InitError::NoUsableGpu))));
}

#[test]
fn device_reports_in_an_active_session() {
    let added = UdevEvent::Added { device_id: 5, path: path("card1") };
    assert!(matches!(
        device_action(true, added, Some(CARD)),
        DeviceAction::Add { node, path: p } if node == CARD && p == path("card1")
    ));
    let added = UdevEvent::Added { device_id: 5, path: path("card1") };
    assert!(matches!(device_action(true, added, None), DeviceAction::Skip { device_id: 5 }));
    let changed = UdevEvent::Changed { device_id: 5 };
    assert!(matches!(
        device_action(true, changed, Some(CARD)),
        DeviceAction::Change { node } if node == CARD
    ));
    let removed = UdevEvent::Removed { device_id: 5 };
    assert!(matches!(
        device_action(true, removed, Some(CARD)),
        DeviceAction::Remove { node } if node == CARD
    ));
}

#[test]
fn reports_on_unknown_devices() {
    let changed = UdevEvent::Changed { device_id: 5 };
    assert!(matches!(device_action(true, changed, None), DeviceAction::Ignore));
    let removed = UdevEvent::Removed { device_id: 5 };
    assert!(matches!(device_action(true, removed, None), DeviceAction::Ignore));
}

#[test]
fn device_reports_in_the_background() {
    let added = UdevEvent::Added { device_id: 5, path: path("card1") };
    assert!(matches!(device_action(false, added, Some(CARD)), DeviceAction::Ignore));
    let removed = UdevEvent::Removed { device_id: 5 };
    assert!(matches!(device_action(false, removed, Some(CARD)), DeviceAction::Ignore));
}

#[test]
fn egl_outcomes() {
    let bind = "EGL_WL_bind_wayland_display".to_string();
    let other = "EGL_KHR_image_base".to_string();
    assert_eq!(egl_support(Ok(())), EglSupport::Enabled);
    assert_eq!(egl_support(Err(EglBindError::Other)), EglSupport::Failed);
    let missing = |names: Vec<String>| Err(EglBindError::ExtensionNotSupported(names));
    assert_eq!(egl_support(missing(vec![bind.clone(), bind.clone()])), EglSupport::NotSupported);
    assert_eq!(egl_support(missing(vec![])), EglSupport::NotSupported);
    assert_eq!(egl_support(missing(vec![bind, other.clone()])), EglSupport::Failed);
    assert_eq!(egl_support(missing(vec![other])), EglSupport::Failed);
}

#[test]
fn sandboxed_clients_do_not_control_outputs() {
    assert!(sees_output_control(false));
    assert!(!sees_output_control(true));
}

#[test]
fn messages() {
    let expected = vec![
        (InitError::EventLoop, "Failed to create event loop"),
        (InitError::Display, "Failed to create Wayland display"),
        (InitError::Session, "Failed to intialize libseat session"),
        (InitError::GpuPath, "Invalid DRM device path for GPU"),
        (InitError::PrimaryGpu, "Failed to find primary GPU"),
        (InitError::AllGpus, "Failed to query all GPUS"),
        (InitError::NoUsableGpu, "No usable GPU found"),
        (InitError::GpuManager, "Failed to initialize GPU manager"),
        (InitError::UdevBackend, "Failed to intialize udev backend"),
        (InitError::AssignSeat, "Failed to assign libinput context to seat"),
        (InitError::LibinputSource, "Failed to register libinput event source"),
        (InitError::SessionSource, "Failed to register session notifier event source"),
        (InitError::PrimaryNode, "Failed to get primary GPU node"),
        (InitError::PrimaryDevice, "Failed to initialize primary GPU node"),
        (InitError::Renderer, "Failed to get renderer for primary GPU"),
        (InitError::DmabufFeedback, "Failed to build default DMABUF feedback"),
        (InitError::RenderDurations, "Failed to register GPU render duration channel"),
        (InitError::UdevSource, "Failed to register udev event source"),
    ];
    for (error, message) in expected {
        assert_eq!(error.message(), message);
    }
}
