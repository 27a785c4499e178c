use std::collections::HashMap;
use std::path::PathBuf;
use xfwl4_udev::activation::{Activation, ActivationAction, ActivationReply};
use xfwl4_udev::bring_up::{BringUp, BringUpAction, BringUpReply, PrimaryOutcome};
use xfwl4_udev::config::UdevConfig;
use xfwl4_udev::data::{BackendData, UdevData};
use xfwl4_udev::error::InitError;
use xfwl4_udev::gpu::{GpuQuery, GpuReply, GpuSelection};
use xfwl4_udev::node::DrmNode;
use xfwl4_udev::startup::{init, StartupAction, StartupReply};

const GPU: DrmNode = DrmNode { dev_id: 0xe280 };
const CARD: DrmNode = DrmNode { dev_id: 0xe200 };
const OTHER: DrmNode = DrmNode { dev_id: 0xe201 };

fn config() -> UdevConfig {
    UdevConfig {
        drm_device: Some(PathBuf::from("/dev/dri/card7")),
        disable_gles_instancing: true,
        disable_10bit_color: false,
        disable_direct_scanout: true,
    }
}

fn device() -> BackendData {
    BackendData {
        surfaces: HashMap::new(),
        paused: false,
        active_leases: vec![],
        leasing_global: None,
    }
}

/// A seat for tests: what each action comes to.
struct Seat {
    fails: &'static str,
    active: bool,
    card_fallback: bool,
    card_node: Option<DrmNode>,
    ids: Vec<u64>,
    broken: u64,
    primary: PrimaryOutcome,
    renderers: Vec<DrmNode>,
    syncobj: bool,
}

fn seat() -> Seat {
    Seat {
        fails: "",
        active: true,
        card_fallback: true,
        card_node: Some(CARD),
        ids: vec![OTHER.dev_id, CARD.dev_id],
        broken: 0,
        primary: PrimaryOutcome::Added,
        renderers: vec![GPU],
        syncobj: true,
    }
}

impl Seat {
    fn start(&self) -> (Result<(), InitError>, Vec<String>) {
        let mut log: Vec<String> = vec![];
        let (mut startup, mut action) = init(config());
        loop {
            let mut works = |name: &str| {
                log.push(name.to_string());
                StartupReply::Outcome(name != self.fails)
            };
            let reply = match action {
                StartupAction::CreateEventLoop => works("event loop"),
                StartupAction::CreateDisplay => works("display"),
                StartupAction::OpenSession => works("session"),
                StartupAction::SelectGpu(path) => {
                    assert_eq!(path, Some(PathBuf::from("/dev/dri/card7")));
                    if self.fails == "gpu" {
                        StartupReply::Gpu(Err(InitError::GpuPath))
                    } else {
                        StartupReply::Gpu(Ok(GPU))
                    }
                }
                StartupAction::CreateGpuManager { disable_gles_instancing } => {
                    assert!(disable_gles_instancing);
                    works("manager")
                }
                StartupAction::CreateState(data) => {
                    assert_eq!(data.primary_gpu, GPU);
                    assert!(data.backends.is_empty());
                    assert!(!data.disable_10bit_color);
                    assert!(data.disable_direct_scanout);
                    StartupReply::Done
                }
                StartupAction::CreateUdevBackend => works("udev"),
                StartupAction::AssignSeat => works("seat"),
                StartupAction::CheckSession => StartupReply::Active(self.active),
                StartupAction::SuspendInput => {
                    works("suspend");
                    StartupReply::Done
                }
                StartupAction::RegisterInput => works("input source"),
                StartupAction::RegisterSession => works("session source"),
                StartupAction::BringUpDevices { card_fallback } => {
                    assert!(card_fallback);
                    works("devices");
                    if self.fails == "devices" {
                        StartupReply::BroughtUp(Err(InitError::Renderer))
                    } else {
                        StartupReply::BroughtUp(Ok(()))
                    }
                }
                StartupAction::RegisterDurations => works("durations"),
                StartupAction::RegisterUdev => works("udev source"),
                StartupAction::Finished(result) => return (result, log),
            };
            assert!(startup.awaits(&reply));
            (startup, action) = startup.step(reply);
        }
    }

    fn bring_up(&self, data: &mut UdevData) -> (Result<(), InitError>, Vec<String>) {
        let mut log: Vec<String> = vec![];
        let (mut bring_up, mut action) = BringUp::start(self.card_fallback);
        loop {
            let reply = match action {
                BringUpAction::ListDevices => {
                    BringUpReply::Devices { card_node: self.card_node, ids: self.ids.clone() }
                }
                BringUpAction::AddPrimary(position) => {
                    log.push(format!("primary {}", position));
                    if self.primary == PrimaryOutcome::Added {
                        data.backends.insert(self.ids[position], device());
                    }
                    BringUpReply::Primary(self.primary)
                }
                BringUpAction::AddOther(position) => {
                    log.push(format!("other {}", position));
                    BringUpReply::Outcome(self.ids[position] != self.broken)
                }
                BringUpAction::OpenRenderer(node) => {
                    log.push(format!("renderer {:x}", node.dev_id));
                    BringUpReply::Outcome(self.renderers.contains(&node))
                }
                BringUpAction::FindCardNode(node) => {
                    assert_eq!(node, GPU);
                    BringUpReply::Node(self.card_node)
                }
                BringUpAction::AnnounceFormats => {
                    let last = log.last().unwrap().clone();
                    log.push(format!("formats of {}", last));
                    assert!(!data.dmabuf_state);
                    BringUpReply::Done
                }
                BringUpAction::AnnounceDmabuf(node) => {
                    assert_eq!(node, GPU);
                    BringUpReply::Outcome(self.fails != "dmabuf")
                }
                BringUpAction::MakeFeedback => {
                    assert!(data.dmabuf_state);
                    log.push("feedback".to_string());
                    BringUpReply::Done
                }
                BringUpAction::FindImportNode(node) => {
                    assert_eq!(node, GPU);
                    BringUpReply::Node(self.card_node)
                }
                BringUpAction::AnnounceSyncobj(node) => {
                    log.push(format!("syncobj {:x}", node.dev_id));
                    BringUpReply::Outcome(self.syncobj)
                }
                BringUpAction::Finished(result) => return (result, log),
            };
            assert!(bring_up.awaits(&reply));
            (bring_up, action) = bring_up.step(data, reply);
        }
    }
}

fn empty() -> UdevData {
    UdevData::new(&config(), GPU)
}

#[test]
fn start_in_an_active_session() {
    let (result, log) = seat().start();
    assert_eq!(result, Ok(()));
    assert_eq!(
        log,
        vec![
            "event loop", "display", "session", "manager", "udev", "seat", "input source",
            "session source", "devices", "durations", "udev source",
        ]
    );
}

#[test]
fn start_in_the_background() {
    let (result, log) = Seat { active: false, ..seat() }.start();
    assert_eq!(result, Ok(()));
    assert_eq!(
        log,
        vec![
            "event loop", "display", "session", "manager", "udev", "seat", "suspend",
            "input source", "session source", "durations", "udev source",
        ]
    );
}

#[test]
fn first_failure_ends_the_start() {
    let failures = vec![
        ("event loop", InitError::EventLoop, 1),
        ("display", InitError::Display, 2),
        ("session", InitError::Session, 3),
        ("gpu", InitError::GpuPath, 3),
        ("manager", InitError::GpuManager, 4),
        ("udev", InitError::UdevBackend, 5),
        ("seat", InitError::AssignSeat, 6),
        ("input source", InitError::LibinputSource, 7),
        ("session source", InitError::SessionSource, 8),
        ("devices", InitError::Renderer, 9),
        ("durations", InitError::RenderDurations, 10),
        ("udev source", InitError::UdevSource, 11),
    ];
    for (fails, error, performed) in failures {
        let (result, log) = Seat { fails, ..seat() }.start();
        assert_eq!(result, Err(error));
        assert_eq!(log.len(), performed);
    }
}

#[test]
fn replies_of_another_kind_are_not_awaited() {
    let (startup, _) = init(config());
    assert!(startup.awaits(&StartupReply::Outcome(true)));
    assert!(!startup.awaits(&StartupReply::Done));
    let (bring_up, _) = BringUp::start(true);
    assert!(!bring_up.awaits(&BringUpReply::Done));
    let (activation, _) = Activation::start();
    assert!(activation.awaits(&ActivationReply::Done));
    assert!(!activation.awaits(&ActivationReply::Devices(vec![])));
}

#[test]
fn devices_are_brought_up() {
    let mut data = empty();
    let (result, log) = seat().bring_up(&mut data);
    assert_eq!(result, Ok(()));
    assert_eq!(
        log,
        vec![
            "primary 1",
            "other 0",
            "renderer e280",
            "formats of renderer e280",
            "feedback",
            "syncobj e200",
        ]
    );
    assert!(data.dmabuf_state);
    assert!(data.syncobj_state);
}

#[test]
fn card_node_may_render() {
    let fallback = Seat { renderers: vec![CARD], ..seat() };
    let (result, log) = fallback.bring_up(&mut empty());
    assert_eq!(result, Ok(()));
    assert_eq!(log[2..4], ["renderer e280".to_string(), "renderer e200".to_string()]);
    assert_eq!(log[4], "formats of renderer e200");

    let first_activation = Seat { card_fallback: false, ..fallback };
    let (result, log) = first_activation.bring_up(&mut empty());
    assert_eq!(result, Err(InitError::Renderer));
    assert_eq!(log.len(), 3);
}

#[test]
fn no_renderer() {
    let (result, _) = Seat { renderers: vec![], ..seat() }.bring_up(&mut empty());
    assert_eq!(result, Err(InitError::Renderer));
    let without_card = Seat { renderers: vec![], card_node: None, ..seat() };
    let (result, log) = without_card.bring_up(&mut empty());
    assert_eq!(result, Err(InitError::Renderer));
    assert_eq!(log, vec!["other 0", "other 1", "renderer e280"]);
}

#[test]
fn primary_device_must_come_up() {
    let (result, log) =
        Seat { primary: PrimaryOutcome::NoNode, ..seat() }.bring_up(&mut empty());
    assert_eq!(result, Err(InitError::PrimaryNode));
    assert_eq!(log, vec!["primary 1"]);
    let (result, log) =
        Seat { primary: PrimaryOutcome::Failed, ..seat() }.bring_up(&mut empty());
    assert_eq!(result, Err(InitError::PrimaryDevice));
    assert_eq!(log, vec!["primary 1"]);
}

#[test]
fn dmabuf_feedback_must_be_built() {
    let mut data = empty();
    let (result, _) = Seat { fails: "dmabuf", ..seat() }.bring_up(&mut data);
    assert_eq!(result, Err(InitError::DmabufFeedback));
    assert!(!data.dmabuf_state);
    assert!(!data.syncobj_state);
}

#[test]
fn explicit_sync_is_optional() {
    let mut data = empty();
    let (result, _) = Seat { syncobj: false, ..seat() }.bring_up(&mut data);
    assert_eq!(result, Ok(()));
    assert!(!data.syncobj_state);

    // The card node is not among the devices that are up.
    let mut data = empty();
    let (result, log) = Seat { ids: vec![OTHER.dev_id], ..seat() }.bring_up(&mut data);
    assert_eq!(result, Ok(()));
    assert_eq!(log.last().unwrap(), "feedback");
    assert!(!data.syncobj_state);
}

#[test]
fn first_activation_brings_devices_up() {
    let data = empty();
    let (activation, action) = Activation::start();
    assert!(matches!(action, ActivationAction::ResumeInput));
    let (activation, action) = activation.step(&data, ActivationReply::Done);
    assert!(matches!(action, ActivationAction::BringUpDevices { card_fallback: false }));
    let (activation, action) = activation.step(&data, ActivationReply::BroughtUp(Ok(())));
    assert!(matches!(action, ActivationAction::ActivateDevices));
    let (activation, action) = activation.step(&data, ActivationReply::Done);
    assert!(matches!(action, ActivationAction::Finished));
    assert!(matches!(activation, Activation::Finished));
}

#[test]
fn failed_first_activation_activates_nothing() {
    let data = empty();
    let (activation, _) = Activation::start();
    let (activation, _) = activation.step(&data, ActivationReply::Done);
    let failed = ActivationReply::BroughtUp(Err(InitError::PrimaryDevice));
    let (activation, action) = activation.step(&data, failed);
    assert!(matches!(action, ActivationAction::Finished));
    assert!(!activation.awaits(&ActivationReply::Done));
}

#[test]
fn later_activation_looks_devices_over() {
    let mut data = empty();
    data.backends.insert(CARD.dev_id, device());
    data.backends.insert(OTHER.dev_id, device());
    let third = DrmNode { dev_id: 0xe202 };
    let (activation, _) = Activation::start();
    let (activation, action) = activation.step(&data, ActivationReply::Done);
    assert!(matches!(action, ActivationAction::ListDevices));
    let present = ActivationReply::Devices(vec![third.dev_id, CARD.dev_id]);
    let (activation, action) = activation.step(&data, present);
    assert!(matches!(action, ActivationAction::RemoveDevices(stale) if stale == vec![OTHER]));
    data.backends.remove(&OTHER.dev_id);
    let (activation, action) = activation.step(&data, ActivationReply::Done);
    assert!(matches!(action, ActivationAction::ListNodes));
    let nodes = ActivationReply::Nodes(vec![Some(third), Some(CARD)]);
    let (activation, action) = activation.step(&data, nodes);
    assert!(matches!(action, ActivationAction::AddDevice(0)));
    data.backends.insert(third.dev_id, device());
    let (activation, action) = activation.step(&data, ActivationReply::Outcome(true));
    assert!(matches!(action, ActivationAction::ActivateDevices));
    let (_, action) = activation.step(&data, ActivationReply::Done);
    assert!(matches!(action, ActivationAction::Finished));
    assert_eq!(data.backends.len(), 2);
}

#[test]
fn deferred_devices_come_in_the_same_order() {
    let (_, at_start) = seat().bring_up(&mut empty());
    let (_, deferred) = Seat { card_fallback: false, ..seat() }.bring_up(&mut empty());
    assert_eq!(at_start[..2], deferred[..2]);
    assert_eq!(deferred[..2], ["primary 1".to_string(), "other 0".to_string()]);
}

#[test]
fn broken_device_does_not_stop_the_others() {
    let third = 0xe202;
    let several = Seat { ids: vec![OTHER.dev_id, CARD.dev_id, third], ..seat() };
    let (expected_result, expected_log) = several.bring_up(&mut empty());
    let (result, log) = Seat { broken: OTHER.dev_id, ..several }.bring_up(&mut empty());
    assert_eq!(log[..3], ["primary 1".to_string(), "other 0".to_string(), "other 2".to_string()]);
    assert_eq!(log, expected_log);
    assert_eq!(result, expected_result);
    assert_eq!(result, Ok(()));
}

#[test]
fn broken_new_device_does_not_stop_the_others() {
    let mut data = empty();
    data.backends.insert(CARD.dev_id, device());
    let (activation, _) = Activation::start();
    let (activation, _) = activation.step(&data, ActivationReply::Done);
    let present = vec![OTHER.dev_id, CARD.dev_id, 0xe202];
    let (activation, _) = activation.step(&data, ActivationReply::Devices(present));
    let (activation, _) = activation.step(&data, ActivationReply::Done);
    let nodes = vec![Some(OTHER), Some(CARD), Some(DrmNode { dev_id: 0xe202 })];
    let (activation, action) = activation.step(&data, ActivationReply::Nodes(nodes));
    assert!(matches!(action, ActivationAction::AddDevice(0)));
    assert!(!activation.awaits(&ActivationReply::Done));
    let (activation, action) = activation.step(&data, ActivationReply::Outcome(false));
    assert!(matches!(action, ActivationAction::AddDevice(2)));
    let (_, action) = activation.step(&data, ActivationReply::Outcome(false));
    assert!(matches!(action, ActivationAction::ActivateDevices));
}

#[test]
fn nothing_new_on_activation() {
    let mut data = empty();
    data.backends.insert(CARD.dev_id, device());
    let (activation, _) = Activation::start();
    let (activation, _) = activation.step(&data, ActivationReply::Done);
    let (activation, _) =
        activation.step(&data, ActivationReply::Devices(vec![CARD.dev_id]));
    let (activation, _) = activation.step(&data, ActivationReply::Done);
    let nodes = ActivationReply::Nodes(vec![Some(CARD), None]);
    let (_, action) = activation.step(&data, nodes);
    assert!(matches!(action, ActivationAction::ActivateDevices));
}

#[test]
fn explicit_sync_needs_a_known_device() {
    let mut known = empty();
    let (result, _) = seat().bring_up(&mut known);
    assert_eq!(result, Ok(()));
    assert!(known.syncobj_state);

    let mut unknown = empty();
    let (result, _) = Seat { ids: vec![OTHER.dev_id], ..seat() }.bring_up(&mut unknown);
    assert_eq!(result, Ok(()));
    assert!(!unknown.syncobj_state);

    let mut announced = empty();
    announced.syncobj_state = true;
    let (result, _) = Seat { syncobj: false, ..seat() }.bring_up(&mut announced);
    assert_eq!(result, Ok(()));
    assert!(announced.syncobj_state);
}

#[test]
fn whole_start_with_gpu_choice_and_devices() {
    let mut data = None;
    let mut log: Vec<String> = vec![];
    let devices = Seat { renderers: vec![CARD], ..seat() };
    let (mut startup, mut action) = init(config());
    let result = loop {
        let reply = match action {
            StartupAction::SelectGpu(path) => {
                let (selection, query) = GpuSelection::start(path);
                assert!(matches!(query, GpuQuery::OpenConfigured(_)));
                match selection.step(GpuReply::Node(Some(GPU))) {
                    (_, GpuQuery::Finished(chosen)) => StartupReply::Gpu(chosen),
                    _ => unreachable!(),
                }
            }
            StartupAction::CreateState(made) => {
                data = Some(made);
                StartupReply::Done
            }
            StartupAction::CheckSession => StartupReply::Active(true),
            StartupAction::BringUpDevices { card_fallback } => {
                let seat = Seat { card_fallback, ..seat() };
                let seat = Seat { renderers: devices.renderers.clone(), ..seat };
                let (brought_up, steps) = seat.bring_up(data.as_mut().unwrap());
                log = steps;
                StartupReply::BroughtUp(brought_up)
            }
            StartupAction::Finished(result) => break result,
            _ => StartupReply::Outcome(true),
        };
        assert!(startup.awaits(&reply));
        (startup, action) = startup.step(reply);
    };
    assert_eq!(result, Ok(()));
    assert_eq!(log[..3], ["primary 1".to_string(), "other 0".to_string(), "renderer e280".to_string()]);
    assert_eq!(log[3], "renderer e200");
    let data = data.unwrap();
    assert_eq!(data.primary_gpu, GPU);
    assert!(data.dmabuf_state);
}
