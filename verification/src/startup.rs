//! Starting the backend.
//!
//! [`init`] and [`Startup::step`] say what to do next. Each action is carried
//! out outside of the library, and what came of it is handed to the next step.
//! The first failure ends it.

use crate::bring_up::{law_bring_up_result, BringUpActionView, BringUpSeat};
use crate::config::UdevConfig;
use crate::data::{DebugFlags, UdevData, UdevView};
use crate::error::InitError;
use crate::gpu::{law_gpu_choice, GpuQuery, GpuSystem};
use crate::node::DrmNode;
use std::path::PathBuf;
use vstd::prelude::*;

verus! {

/// What has to be done next.
pub enum StartupAction {
    CreateEventLoop,
    CreateDisplay,
    /// Open the libseat session.
    OpenSession,
    /// Choose the primary GPU, given the path that the user configured.
    SelectGpu(Option<PathBuf>),
    /// Create the GPU manager, whose renderers may use instancing or not.
    CreateGpuManager { disable_gles_instancing: bool },
    /// Create the state of the compositor around this backend.
    CreateState(UdevData),
    /// Create the udev monitor.
    CreateUdevBackend,
    /// Let libinput take the seat.
    AssignSeat,
    /// Ask whether the session is active.
    CheckSession,
    /// Suspend libinput until the session is active.
    SuspendInput,
    /// Register libinput with the event loop.
    RegisterInput,
    /// Register the session notifier with the event loop.
    RegisterSession,
    /// Bring the devices of the seat up. The card node of the primary GPU may
    /// stand in for it as the renderer.
    BringUpDevices { card_fallback: bool },
    /// Register the channel of render durations with the event loop.
    RegisterDurations,
    /// Register the udev monitor with the event loop.
    RegisterUdev,
    /// Nothing: the backend has been started, or could not be.
    Finished(Result<(), InitError>),
}

/// What came of it.
pub enum StartupReply {
    /// It has been done.
    Done,
    /// Whether it worked.
    Outcome(bool),
    /// The GPU that was chosen.
    Gpu(Result<DrmNode, InitError>),
    /// Whether the session is active.
    Active(bool),
    /// Whether the devices have been brought up.
    BroughtUp(Result<(), InitError>),
}

/// How far the start has got.
pub enum StartupStage {
    CreatingEventLoop,
    CreatingDisplay,
    OpeningSession,
    SelectingGpu,
    CreatingGpuManager { primary_gpu: DrmNode },
    CreatingState,
    CreatingUdevBackend,
    AssigningSeat,
    CheckingInput,
    SuspendingInput,
    RegisteringInput,
    RegisteringSession,
    CheckingDevices,
    BringingUp,
    RegisteringDurations,
    RegisteringUdev,
    Finished,
}

/// Starts the backend.
pub struct Startup {
    pub config: UdevConfig,
    pub stage: StartupStage,
}

/// What a [`StartupAction`] holds.
pub ghost enum StartupActionView {
    CreateEventLoop,
    CreateDisplay,
    OpenSession,
    SelectGpu(Option<PathBuf>),
    CreateGpuManager { disable_gles_instancing: bool },
    CreateState(UdevView),
    CreateUdevBackend,
    AssignSeat,
    CheckSession,
    SuspendInput,
    RegisterInput,
    RegisterSession,
    BringUpDevices { card_fallback: bool },
    RegisterDurations,
    RegisterUdev,
    Finished(Result<(), InitError>),
}

impl View for StartupAction {
    type V = StartupActionView;

    open spec fn view(&self) -> StartupActionView {
        match self {
            StartupAction::CreateEventLoop => StartupActionView::CreateEventLoop,
            StartupAction::CreateDisplay => StartupActionView::CreateDisplay,
            StartupAction::OpenSession => StartupActionView::OpenSession,
            StartupAction::SelectGpu(path) => StartupActionView::SelectGpu(*path),
            StartupAction::CreateGpuManager { disable_gles_instancing } => {
                StartupActionView::CreateGpuManager {
                    disable_gles_instancing: *disable_gles_instancing,
                }
            },
            StartupAction::CreateState(data) => StartupActionView::CreateState(data@),
            StartupAction::CreateUdevBackend => StartupActionView::CreateUdevBackend,
            StartupAction::AssignSeat => StartupActionView::AssignSeat,
            StartupAction::CheckSession => StartupActionView::CheckSession,
            StartupAction::SuspendInput => StartupActionView::SuspendInput,
            StartupAction::RegisterInput => StartupActionView::RegisterInput,
            StartupAction::RegisterSession => StartupActionView::RegisterSession,
            StartupAction::BringUpDevices { card_fallback } => StartupActionView::BringUpDevices {
                card_fallback: *card_fallback,
            },
            StartupAction::RegisterDurations => StartupActionView::RegisterDurations,
            StartupAction::RegisterUdev => StartupActionView::RegisterUdev,
            StartupAction::Finished(result) => StartupActionView::Finished(*result),
        }
    }
}

/// Goes on to `action` in `stage` where it `worked`, and otherwise ends with
/// `error`.
pub open spec fn go_on(
    worked: bool,
    error: InitError,
    stage: StartupStage,
    action: StartupActionView,
) -> (StartupStage, StartupActionView) {
    if worked {
        (stage, action)
    } else {
        (StartupStage::Finished, StartupActionView::Finished(Err(error)))
    }
}

/// What the backend knows before any device has been brought up.
pub open spec fn initial_data(config: UdevConfig, primary_gpu: DrmNode) -> UdevView {
    UdevView {
        primary_gpu,
        backends: Map::empty(),
        debug_flags: DebugFlags { bits: 0 },
        dmabuf_state: false,
        syncobj_state: false,
        disable_10bit_color: config.disable_10bit_color,
        disable_direct_scanout: config.disable_direct_scanout,
    }
}

/// The path of the GPU has been handed on.
pub open spec fn without_device(config: UdevConfig) -> UdevConfig {
    UdevConfig { drm_device: None, ..config }
}

impl StartupStage {
    /// Whether `reply` answers the action that was asked for last.
    pub open spec fn spec_awaits(self, reply: StartupReply) -> bool {
        match self {
            StartupStage::SelectingGpu => reply is Gpu,
            StartupStage::CheckingInput | StartupStage::CheckingDevices => reply is Active,
            StartupStage::BringingUp => reply is BroughtUp,
            StartupStage::CreatingState | StartupStage::SuspendingInput => reply is Done,
            StartupStage::Finished => false,
            _ => reply is Outcome,
        }
    }

    /// How it goes on after `reply`.
    pub open spec fn next(self, config: UdevConfig, reply: StartupReply) -> (
        StartupStage,
        StartupActionView,
    ) {
        let worked = reply->Outcome_0;
        let durations = (StartupStage::RegisteringDurations, StartupActionView::RegisterDurations);
        match self {
            StartupStage::CreatingEventLoop => go_on(
                worked,
                InitError::EventLoop,
                StartupStage::CreatingDisplay,
                StartupActionView::CreateDisplay,
            ),
            StartupStage::CreatingDisplay => go_on(
                worked,
                InitError::Display,
                StartupStage::OpeningSession,
                StartupActionView::OpenSession,
            ),
            StartupStage::OpeningSession => go_on(
                worked,
                InitError::Session,
                StartupStage::SelectingGpu,
                StartupActionView::SelectGpu(config.drm_device),
            ),
            StartupStage::SelectingGpu => match reply->Gpu_0 {
                Ok(primary_gpu) => (
                    StartupStage::CreatingGpuManager { primary_gpu },
                    StartupActionView::CreateGpuManager {
                        disable_gles_instancing: config.disable_gles_instancing,
                    },
                ),
                Err(error) => (StartupStage::Finished, StartupActionView::Finished(Err(error))),
            },
            StartupStage::CreatingGpuManager { primary_gpu } => go_on(
                worked,
                InitError::GpuManager,
                StartupStage::CreatingState,
                StartupActionView::CreateState(initial_data(config, primary_gpu)),
            ),
            StartupStage::CreatingState => (
                StartupStage::CreatingUdevBackend,
                StartupActionView::CreateUdevBackend,
            ),
            StartupStage::CreatingUdevBackend => go_on(
                worked,
                InitError::UdevBackend,
                StartupStage::AssigningSeat,
                StartupActionView::AssignSeat,
            ),
            StartupStage::AssigningSeat => go_on(
                worked,
                InitError::AssignSeat,
                StartupStage::CheckingInput,
                StartupActionView::CheckSession,
            ),
            StartupStage::CheckingInput => if reply->Active_0 {
                (StartupStage::RegisteringInput, StartupActionView::RegisterInput)
            } else {
                (StartupStage::SuspendingInput, StartupActionView::SuspendInput)
            },
            StartupStage::SuspendingInput => (
                StartupStage::RegisteringInput,
                StartupActionView::RegisterInput,
            ),
            StartupStage::RegisteringInput => go_on(
                worked,
                InitError::LibinputSource,
                StartupStage::RegisteringSession,
                StartupActionView::RegisterSession,
            ),
            StartupStage::RegisteringSession => go_on(
                worked,
                InitError::SessionSource,
                StartupStage::CheckingDevices,
                StartupActionView::CheckSession,
            ),
            StartupStage::CheckingDevices => if reply->Active_0 {
                (
                    StartupStage::BringingUp,
                    StartupActionView::BringUpDevices { card_fallback: true },
                )
            } else {
                durations
            },
            StartupStage::BringingUp => match reply->BroughtUp_0 {
                Ok(_) => durations,
                Err(error) => (StartupStage::Finished, StartupActionView::Finished(Err(error))),
            },
            StartupStage::RegisteringDurations => go_on(
                worked,
                InitError::RenderDurations,
                StartupStage::RegisteringUdev,
                StartupActionView::RegisterUdev,
            ),
            StartupStage::RegisteringUdev => go_on(
                worked,
                InitError::UdevSource,
                StartupStage::Finished,
                StartupActionView::Finished(Ok(())),
            ),
            StartupStage::Finished => (StartupStage::Finished, StartupActionView::Finished(Ok(()))),
        }
    }
}

/// Begins to start the backend with this configuration.
pub fn init(config: UdevConfig) -> (started: (Startup, StartupAction))
    ensures
        started.0 == (Startup { config, stage: StartupStage::CreatingEventLoop }),
        started.1@ == StartupActionView::CreateEventLoop,
{
    (Startup { config, stage: StartupStage::CreatingEventLoop }, StartupAction::CreateEventLoop)
}

impl Startup {
    /// Whether `reply` answers the action that was asked for last.
    pub fn awaits(&self, reply: &StartupReply) -> (fits: bool)
        ensures
            fits == self.stage.spec_awaits(*reply),
    {
        match &self.stage {
            StartupStage::SelectingGpu => matches!(reply, StartupReply::Gpu(_)),
            StartupStage::CheckingInput | StartupStage::CheckingDevices => {
                matches!(reply, StartupReply::Active(_))
            },
            StartupStage::BringingUp => matches!(reply, StartupReply::BroughtUp(_)),
            StartupStage::CreatingState | StartupStage::SuspendingInput => {
                matches!(reply, StartupReply::Done)
            },
            StartupStage::Finished => false,
            _ => matches!(reply, StartupReply::Outcome(_)),
        }
    }

    fn fail(error: InitError) -> (failed: (StartupStage, StartupAction))
        ensures
            (failed.0, failed.1@) == (
                StartupStage::Finished,
                StartupActionView::Finished(Err(error)),
            ),
    {
        (StartupStage::Finished, StartupAction::Finished(Err(error)))
    }

    fn go_on(
        reply: &StartupReply,
        error: InitError,
        stage: StartupStage,
        action: StartupAction,
    ) -> (next: (StartupStage, StartupAction))
        requires
            reply is Outcome,
        ensures
            (next.0, next.1@) == go_on(reply->Outcome_0, error, stage, action@),
    {
        match reply {
            StartupReply::Outcome(true) => (stage, action),
            _ => Self::fail(error),
        }
    }

    /// Goes on once an action has been carried out.
    pub fn step(self, reply: StartupReply) -> (stepped: (Startup, StartupAction))
        requires
            self.stage.spec_awaits(reply),
        ensures
            (stepped.0.stage, stepped.1@) == self.stage.next(self.config, reply),
            stepped.0.config == (if self.stage is OpeningSession {
                without_device(self.config)
            } else {
                self.config
            }),
    {
        let mut config: UdevConfig = self.config;
        let (stage, action): (StartupStage, StartupAction) = match self.stage {
            StartupStage::CreatingEventLoop => Self::go_on(
                &reply,
                InitError::EventLoop,
                StartupStage::CreatingDisplay,
                StartupAction::CreateDisplay,
            ),
            StartupStage::CreatingDisplay => Self::go_on(
                &reply,
                InitError::Display,
                StartupStage::OpeningSession,
                StartupAction::OpenSession,
            ),
            StartupStage::OpeningSession => {
                let path: Option<PathBuf> = config.drm_device.take();
                Self::go_on(
                    &reply,
                    InitError::Session,
                    StartupStage::SelectingGpu,
                    StartupAction::SelectGpu(path),
                )
            },
            StartupStage::SelectingGpu => match reply {
                StartupReply::Gpu(Ok(primary_gpu)) => (
                    StartupStage::CreatingGpuManager { primary_gpu },
                    StartupAction::CreateGpuManager {
                        disable_gles_instancing: config.disable_gles_instancing,
                    },
                ),
                StartupReply::Gpu(Err(error)) => Self::fail(error),
                _ => Self::fail(InitError::NoUsableGpu),
            },
            StartupStage::CreatingGpuManager { primary_gpu } => Self::go_on(
                &reply,
                InitError::GpuManager,
                StartupStage::CreatingState,
                StartupAction::CreateState(UdevData::new(&config, primary_gpu)),
            ),
            StartupStage::CreatingState => (
                StartupStage::CreatingUdevBackend,
                StartupAction::CreateUdevBackend,
            ),
            StartupStage::CreatingUdevBackend => Self::go_on(
                &reply,
                InitError::UdevBackend,
                StartupStage::AssigningSeat,
                StartupAction::AssignSeat,
            ),
            StartupStage::AssigningSeat => Self::go_on(
                &reply,
                InitError::AssignSeat,
                StartupStage::CheckingInput,
                StartupAction::CheckSession,
            ),
            // While the session is in the background, another one has the
            // input devices.
            StartupStage::CheckingInput => match reply {
                StartupReply::Active(true) => (
                    StartupStage::RegisteringInput,
                    StartupAction::RegisterInput,
                ),
                _ => (StartupStage::SuspendingInput, StartupAction::SuspendInput),
            },
            StartupStage::SuspendingInput => (
                StartupStage::RegisteringInput,
                StartupAction::RegisterInput,
            ),
            StartupStage::RegisteringInput => Self::go_on(
                &reply,
                InitError::LibinputSource,
                StartupStage::RegisteringSession,
                StartupAction::RegisterSession,
            ),
            StartupStage::RegisteringSession => Self::go_on(
                &reply,
                InitError::SessionSource,
                StartupStage::CheckingDevices,
                StartupAction::CheckSession,
            ),
            // In the background the devices are left for the first activation.
            StartupStage::CheckingDevices => match reply {
                StartupReply::Active(true) => (
                    StartupStage::BringingUp,
                    StartupAction::BringUpDevices { card_fallback: true },
                ),
                _ => (StartupStage::RegisteringDurations, StartupAction::RegisterDurations),
            },
            StartupStage::BringingUp => match reply {
                StartupReply::BroughtUp(Err(error)) => Self::fail(error),
                _ => (StartupStage::RegisteringDurations, StartupAction::RegisterDurations),
            },
            StartupStage::RegisteringDurations => Self::go_on(
                &reply,
                InitError::RenderDurations,
                StartupStage::RegisteringUdev,
                StartupAction::RegisterUdev,
            ),
            StartupStage::RegisteringUdev => Self::go_on(
                &reply,
                InitError::UdevSource,
                StartupStage::Finished,
                StartupAction::Finished(Ok(())),
            ),
            StartupStage::Finished => (StartupStage::Finished, StartupAction::Finished(Ok(()))),
        };
        (Startup { config, stage }, action)
    }
}

/// A system to start the backend on: what each action comes to there.
pub ghost struct StartupSystem {
    pub event_loop: bool,
    pub display: bool,
    pub session: bool,
    pub gpu: Result<DrmNode, InitError>,
    pub gpu_manager: bool,
    pub udev_backend: bool,
    pub seat: bool,
    /// Whether the session is active when libinput is set up.
    pub active_for_input: bool,
    pub input_source: bool,
    pub session_source: bool,
    /// Whether the session is active when devices could be brought up.
    pub active_for_devices: bool,
    pub brought_up: Result<(), InitError>,
    pub durations: bool,
    pub udev_source: bool,
}

/// The failure, where it did not work.
pub open spec fn failure(worked: bool, error: InitError) -> Option<InitError> {
    if worked {
        None
    } else {
        Some(error)
    }
}

/// The first failure of a list.
pub open spec fn first_failure(failures: Seq<Option<InitError>>) -> Result<(), InitError>
    decreases failures.len(),
{
    if failures.len() == 0 {
        Ok(())
    } else if failures[0] is Some {
        Err(failures[0]->0)
    } else {
        first_failure(failures.drop_first())
    }
}

impl StartupSystem {
    /// What can fail, in the order in which it is done.
    pub open spec fn failures(self) -> Seq<Option<InitError>> {
        self.failures_with(self.gpu, self.brought_up)
    }

    /// What can fail, where the choice of a GPU comes to `gpu` and bringing
    /// devices up comes to `brought_up`.
    pub open spec fn failures_with(
        self,
        gpu: Result<DrmNode, InitError>,
        brought_up: Result<(), InitError>,
    ) -> Seq<Option<InitError>> {
        seq![
            failure(self.event_loop, InitError::EventLoop),
            failure(self.display, InitError::Display),
            failure(self.session, InitError::Session),
            match gpu {
                Ok(_) => None,
                Err(error) => Some(error),
            },
            failure(self.gpu_manager, InitError::GpuManager),
            failure(self.udev_backend, InitError::UdevBackend),
            failure(self.seat, InitError::AssignSeat),
            failure(self.input_source, InitError::LibinputSource),
            failure(self.session_source, InitError::SessionSource),
            match brought_up {
                Err(error) if self.active_for_devices => Some(error),
                _ => None,
            },
            failure(self.durations, InitError::RenderDurations),
            failure(self.udev_source, InitError::UdevSource),
        ]
    }

    /// Whether the two actions that are sequences themselves come to what those
    /// sequences come to: the GPU is chosen among `gpus` by the path that was
    /// handed on, and the devices of `devices` are brought up with the GPU that
    /// the backend was made with.
    pub open spec fn is_joined(
        self,
        config: UdevConfig,
        gpus: GpuSystem,
        devices: BringUpSeat,
    ) -> bool {
        forall|steps: nat|
            match (#[trigger] self.after(config, steps)).1 {
                StartupActionView::SelectGpu(path) => gpus.after(path, gpus.lookups()).1
                    == GpuQuery::Finished(self.gpu),
                StartupActionView::CreateState(data) => devices.primary_gpu == data.primary_gpu,
                StartupActionView::BringUpDevices { card_fallback } => {
                    &&& devices.card_fallback == card_fallback
                    &&& devices.after(devices.actions()).1 == BringUpActionView::Finished(
                        self.brought_up,
                    )
                },
                _ => true,
            }
    }

    /// What the action of a stage comes to.
    pub open spec fn answer(self, stage: StartupStage) -> StartupReply {
        match stage {
            StartupStage::CreatingEventLoop => StartupReply::Outcome(self.event_loop),
            StartupStage::CreatingDisplay => StartupReply::Outcome(self.display),
            StartupStage::OpeningSession => StartupReply::Outcome(self.session),
            StartupStage::SelectingGpu => StartupReply::Gpu(self.gpu),
            StartupStage::CreatingGpuManager { .. } => StartupReply::Outcome(self.gpu_manager),
            StartupStage::CreatingState => StartupReply::Done,
            StartupStage::CreatingUdevBackend => StartupReply::Outcome(self.udev_backend),
            StartupStage::AssigningSeat => StartupReply::Outcome(self.seat),
            StartupStage::CheckingInput => StartupReply::Active(self.active_for_input),
            StartupStage::SuspendingInput => StartupReply::Done,
            StartupStage::RegisteringInput => StartupReply::Outcome(self.input_source),
            StartupStage::RegisteringSession => StartupReply::Outcome(self.session_source),
            StartupStage::CheckingDevices => StartupReply::Active(self.active_for_devices),
            StartupStage::BringingUp => StartupReply::BroughtUp(self.brought_up),
            StartupStage::RegisteringDurations => StartupReply::Outcome(self.durations),
            StartupStage::RegisteringUdev => StartupReply::Outcome(self.udev_source),
            StartupStage::Finished => StartupReply::Done,
        }
    }

    /// The start and the action after `steps` actions.
    pub open spec fn after(self, config: UdevConfig, steps: nat) -> (Startup, StartupActionView)
        decreases steps,
    {
        if steps == 0 {
            (
                Startup { config, stage: StartupStage::CreatingEventLoop },
                StartupActionView::CreateEventLoop,
            )
        } else {
            let (startup, action) = self.after(config, (steps - 1) as nat);
            if action is Finished {
                (startup, action)
            } else {
                let next = startup.stage.next(startup.config, self.answer(startup.stage));
                let left = if startup.stage is OpeningSession {
                    without_device(startup.config)
                } else {
                    startup.config
                };
                (Startup { config: left, stage: next.0 }, next.1)
            }
        }
    }
}

proof fn lemma_finished_stays(system: StartupSystem, config: UdevConfig, steps: nat, more: nat)
    requires
        system.after(config, steps).1 is Finished,
    ensures
        system.after(config, steps + more) == system.after(config, steps),
    decreases more,
{
    if more > 0 {
        lemma_finished_stays(system, config, steps, (more - 1) as nat);
    }
}

proof fn lemma_first_failure(failures: Seq<Option<InitError>>, i: nat)
    requires
        i <= failures.len(),
        forall|j: int| 0 <= j < i ==> (#[trigger] failures[j]) is None,
        i < failures.len() ==> failures[i as int] is Some,
    ensures
        first_failure(failures) == (if i < failures.len() {
            Err(failures[i as int]->0)
        } else {
            Ok(())
        }),
    decreases i,
{
    if i > 0 {
        assert(failures[0] is None);
        assert forall|j: int| 0 <= j < i - 1 implies (
        #[trigger] failures.drop_first()[j]) is None by {
            assert(failures[j + 1] is None);
        }
        lemma_first_failure(failures.drop_first(), (i - 1) as nat);
    }
}

/// What is left of the start from a stage on: how many actions at most, and at
/// which of the things that can fail.
spec fn left(stage: StartupStage) -> (nat, nat) {
    match stage {
        StartupStage::CreatingEventLoop => (16, 0),
        StartupStage::CreatingDisplay => (15, 1),
        StartupStage::OpeningSession => (14, 2),
        StartupStage::SelectingGpu => (13, 3),
        StartupStage::CreatingGpuManager { .. } => (12, 4),
        StartupStage::CreatingState => (11, 5),
        StartupStage::CreatingUdevBackend => (10, 5),
        StartupStage::AssigningSeat => (9, 6),
        StartupStage::CheckingInput => (8, 7),
        StartupStage::SuspendingInput => (7, 7),
        StartupStage::RegisteringInput => (6, 7),
        StartupStage::RegisteringSession => (5, 8),
        StartupStage::CheckingDevices => (4, 9),
        StartupStage::BringingUp => (3, 9),
        StartupStage::RegisteringDurations => (2, 10),
        StartupStage::RegisteringUdev => (1, 11),
        StartupStage::Finished => (0, 12),
    }
}

/// From a stage that was reached without failure, the start comes to the first
/// failure.
proof fn lemma_rest(system: StartupSystem, config: UdevConfig, steps: nat)
    requires
        ({
            let (startup, action) = system.after(config, steps);
            &&& (action is Finished) == (startup.stage is Finished)
            &&& action is Finished ==> action == StartupActionView::Finished(Ok(()))
            &&& startup.stage is BringingUp ==> system.active_for_devices
            &&& forall|j: int|
                0 <= j < left(startup.stage).1 ==> (#[trigger] system.failures()[j]) is None
        }),
    ensures
        system.after(config, steps + left(system.after(config, steps).0.stage).0).1
            == StartupActionView::Finished(first_failure(system.failures())),
    decreases left(system.after(config, steps).0.stage).0,
{
    let failures = system.failures();
    let (startup, action) = system.after(config, steps);
    let (most, failing) = left(startup.stage);
    if action is Finished {
        lemma_first_failure(failures, 12);
    } else {
        let (next, next_action) = system.after(config, steps + 1);
        assert(failures[failing as int] is Some || failures[failing as int] is None);
        if next_action is Finished && next_action->Finished_0 is Err {
            lemma_first_failure(failures, failing);
            lemma_finished_stays(system, config, steps + 1, (most - 1) as nat);
        } else {
            assert forall|j: int| 0 <= j < left(next.stage).1 implies (
            #[trigger] failures[j]) is None by {
                assert(left(next.stage).1 <= failing + 1);
            }
            lemma_rest(system, config, steps + 1);
            let reached = steps + 1 + left(next.stage).0;
            lemma_finished_stays(system, config, reached, (steps + most - reached) as nat);
        }
    }
}

/// On every system the start comes to an end: to success where nothing that was
/// done failed, and otherwise to the first failure. Bringing devices up counts
/// only where the session is active.
pub proof fn law_startup_result(system: StartupSystem, config: UdevConfig)
    ensures
        system.after(config, 16).1 == StartupActionView::Finished(
            first_failure(system.failures()),
        ),
{
    lemma_rest(system, config, 0);
}

/// Lists that agree up to the first failure of one have the same first failure.
proof fn lemma_same_first_failure(left: Seq<Option<InitError>>, right: Seq<Option<InitError>>)
    requires
        left.len() == right.len(),
        forall|i: int|
            0 <= i < left.len() && (forall|j: int| 0 <= j < i ==> (#[trigger] left[j]) is None)
                ==> #[trigger] left[i] == right[i],
    ensures
        first_failure(left) == first_failure(right),
    decreases left.len(),
{
    if left.len() > 0 {
        assert(left[0] == right[0]);
        if left[0] is None {
            let (l, r) = (left.drop_first(), right.drop_first());
            assert forall|i: int|
                0 <= i < l.len() && (forall|j: int| 0 <= j < i ==> (#[trigger] l[j]) is None)
                implies #[trigger] l[i] == r[i] by {
                assert forall|j: int| 0 <= j < i + 1 implies (#[trigger] left[j]) is None by {
                    if j > 0 {
                        assert(l[j - 1] is None);
                    }
                }
                assert(left[i + 1] == right[i + 1]);
            }
            lemma_same_first_failure(l, r);
        }
    }
}

/// Where the choice of the GPU is reached, it comes to what the GPUs give.
proof fn lemma_gpu_is_chosen(
    system: StartupSystem,
    config: UdevConfig,
    gpus: GpuSystem,
    devices: BringUpSeat,
)
    requires
        system.is_joined(config, gpus, devices),
        system.event_loop,
        system.display,
        system.session,
    ensures
        system.gpu == gpus.chosen(config.drm_device),
{
    reveal_with_fuel(StartupSystem::after, 4);
    law_gpu_choice(gpus, config.drm_device);
    assert(system.after(config, 3).1 == StartupActionView::SelectGpu(config.drm_device));
}

/// In an active session the devices are brought up unless something failed
/// before.
proof fn lemma_devices_are_brought_up(system: StartupSystem, config: UdevConfig) -> (steps: nat)
    requires
        forall|i: int| 0 <= i < 9 ==> (#[trigger] system.failures()[i]) is None,
        system.active_for_devices,
    ensures
        system.after(config, steps).1 == (StartupActionView::BringUpDevices {
            card_fallback: true,
        }),
{
    let failures = system.failures();
    assert(failures[0] is None && failures[1] is None && failures[2] is None && failures[3] is None
        && failures[4] is None && failures[5] is None && failures[6] is None && failures[7] is None
        && failures[8] is None);
    reveal_with_fuel(StartupSystem::after, 14);
    if system.active_for_input {
        12
    } else {
        13
    }
}

/// From the choice of the GPU on, the GPU is the one that was chosen.
proof fn lemma_chosen_gpu_is_used(
    system: StartupSystem,
    config: UdevConfig,
    gpus: GpuSystem,
    devices: BringUpSeat,
    steps: nat,
)
    requires
        system.is_joined(config, gpus, devices),
    ensures
        ({
            let (startup, action) = system.after(config, steps);
            let chosen = gpus.chosen(config.drm_device);
            &&& match startup.stage {
                StartupStage::CreatingEventLoop | StartupStage::CreatingDisplay
                | StartupStage::OpeningSession => startup.config == config,
                StartupStage::SelectingGpu => action == StartupActionView::SelectGpu(
                    config.drm_device,
                ),
                StartupStage::CreatingGpuManager { primary_gpu } => chosen == Ok::<
                    DrmNode,
                    InitError,
                >(primary_gpu),
                StartupStage::CreatingState => action is CreateState && chosen == Ok::<
                    DrmNode,
                    InitError,
                >(action->CreateState_0.primary_gpu),
                StartupStage::Finished => true,
                _ => chosen == Ok::<DrmNode, InitError>(devices.primary_gpu),
            }
            &&& action is BringUpDevices ==> startup.stage is BringingUp && action
                == (StartupActionView::BringUpDevices { card_fallback: true })
        }),
    decreases steps,
{
    if steps > 0 {
        let earlier = (steps - 1) as nat;
        lemma_chosen_gpu_is_used(system, config, gpus, devices, earlier);
        law_gpu_choice(gpus, config.drm_device);
        law_actions_belong_to_stages(system, config, earlier);
        assert(system.after(config, earlier).0.stage is SelectingGpu ==> system.gpu == gpus.chosen(
            config.drm_device,
        ));
    }
}

/// The start as a whole, with the choice of the GPU and the bring-up of its
/// devices, comes to success where nothing that was done failed, and otherwise
/// to the first failure. The choice comes to [`GpuSystem::chosen`] for the
/// configured path, and the bring-up, which counts only where the session is
/// active, to [`BringUpSeat::result`], where the card node of the chosen GPU may
/// stand in as the renderer.
pub proof fn law_whole_start(
    system: StartupSystem,
    config: UdevConfig,
    gpus: GpuSystem,
    devices: BringUpSeat,
)
    requires
        system.is_joined(config, gpus, devices),
        devices.keeps_primary_gpu(),
    ensures
        system.after(config, 16).1 == StartupActionView::Finished(
            first_failure(
                system.failures_with(gpus.chosen(config.drm_device), devices.result()),
            ),
        ),
        forall|steps: nat|
            (#[trigger] system.after(config, steps)).1 is BringUpDevices ==> devices.card_fallback
                && gpus.chosen(config.drm_device) == Ok::<DrmNode, InitError>(devices.primary_gpu),
{
    let stated = system.failures_with(gpus.chosen(config.drm_device), devices.result());
    law_startup_result(system, config);
    law_gpu_choice(gpus, config.drm_device);
    law_bring_up_result(devices);
    assert forall|i: int|
        0 <= i < system.failures().len() && (forall|j: int|
            0 <= j < i ==> (#[trigger] system.failures()[j]) is None)
        implies #[trigger] system.failures()[i] == stated[i] by {
        if i == 3 {
            lemma_gpu_is_chosen(system, config, gpus, devices);
        }
        if i == 9 && system.active_for_devices {
            let steps = lemma_devices_are_brought_up(system, config);
            assert(devices.after(devices.actions()).1 == BringUpActionView::Finished(
                system.brought_up,
            ));
        }
    }
    lemma_same_first_failure(system.failures(), stated);
    assert forall|steps: nat|
        (#[trigger] system.after(config, steps)).1 is BringUpDevices implies devices.card_fallback
        && gpus.chosen(config.drm_device) == Ok::<DrmNode, InitError>(devices.primary_gpu) by {
        lemma_chosen_gpu_is_used(system, config, gpus, devices, steps);
    }
}

/// In a session that is not active no device is brought up; libinput is
/// suspended exactly then.
pub proof fn law_background_session_is_left_alone(
    system: StartupSystem,
    config: UdevConfig,
    steps: nat,
)
    ensures
        system.after(config, steps).1 is BringUpDevices ==> system.active_for_devices,
        system.after(config, steps).1 is SuspendInput ==> !system.active_for_input,
        system.after(config, steps).0.stage is CheckingInput && !system.active_for_input
            ==> system.after(config, steps + 1).1 is SuspendInput,
    decreases steps,
{
    if steps > 0 {
        law_background_session_is_left_alone(system, config, (steps - 1) as nat);
        law_actions_belong_to_stages(system, config, steps);
    }
}

/// The action is always one whose outcome the next step takes.
pub proof fn law_actions_belong_to_stages(system: StartupSystem, config: UdevConfig, steps: nat)
    ensures
        ({
            let (startup, action) = system.after(config, steps);
            &&& action is Finished <==> startup.stage is Finished
            &&& action !is Finished ==> startup.stage.spec_awaits(system.answer(startup.stage))
        }),
    decreases steps,
{
    if steps > 0 {
        law_actions_belong_to_stages(system, config, (steps - 1) as nat);
    }
}

proof fn lemma_configuration_is_kept(system: StartupSystem, config: UdevConfig, steps: nat)
    ensures
        ({
            let (startup, action) = system.after(config, steps);
            &&& without_device(startup.config) == without_device(config)
            &&& startup.stage matches StartupStage::CreatingGpuManager { primary_gpu }
                ==> system.gpu == Ok::<DrmNode, InitError>(primary_gpu)
            &&& left(startup.stage).0 > 13 ==> startup.config == config
        }),
    decreases steps,
{
    if steps > 0 {
        lemma_configuration_is_kept(system, config, (steps - 1) as nat);
    }
}

/// What the user configured is what is used: the path to choose the GPU by,
/// instancing, and the options of the backend, whose primary GPU is the chosen
/// one.
pub proof fn law_configuration_is_used(system: StartupSystem, config: UdevConfig, steps: nat)
    ensures
        match system.after(config, steps).1 {
            StartupActionView::SelectGpu(path) => path == config.drm_device,
            StartupActionView::CreateGpuManager { disable_gles_instancing } => {
                disable_gles_instancing == config.disable_gles_instancing
            },
            StartupActionView::CreateState(data) => system.gpu is Ok && data == initial_data(
                config,
                system.gpu->Ok_0,
            ),
            _ => true,
        },
    decreases steps,
{
    if steps > 0 {
        let earlier = (steps - 1) as nat;
        law_configuration_is_used(system, config, earlier);
        lemma_configuration_is_kept(system, config, earlier);
        let (startup, action) = system.after(config, earlier);
        assert(without_device(startup.config).disable_10bit_color == config.disable_10bit_color);
        assert(without_device(startup.config).disable_direct_scanout
            == config.disable_direct_scanout);
        assert(without_device(startup.config).disable_gles_instancing
            == config.disable_gles_instancing);
    }
}

/// What the start comes to, over what works on the system: the first thing that
/// does not work ends it and is what is reported. Devices count only where the
/// session is active when they could be brought up.
pub proof fn law_start_by_what_works(system: StartupSystem, config: UdevConfig, steps: nat)
    requires
        system.after(config, steps).1 is Finished,
    ensures
        system.after(config, steps).1 == StartupActionView::Finished(
            if !system.event_loop {
                Err(InitError::EventLoop)
            } else if !system.display {
                Err(InitError::Display)
            } else if !system.session {
                Err(InitError::Session)
            } else if system.gpu is Err {
                Err(system.gpu->Err_0)
            } else if !system.gpu_manager {
                Err(InitError::GpuManager)
            } else if !system.udev_backend {
                Err(InitError::UdevBackend)
            } else if !system.seat {
                Err(InitError::AssignSeat)
            } else if !system.input_source {
                Err(InitError::LibinputSource)
            } else if !system.session_source {
                Err(InitError::SessionSource)
            } else if system.active_for_devices && system.brought_up is Err {
                Err(system.brought_up->Err_0)
            } else if !system.durations {
                Err(InitError::RenderDurations)
            } else if !system.udev_source {
                Err(InitError::UdevSource)
            } else {
                Ok(())
            },
        ),
{
    let failures = system.failures();
    law_startup_result(system, config);
    if steps < 16 {
        lemma_finished_stays(system, config, steps, (16 - steps) as nat);
    } else {
        lemma_finished_stays(system, config, 16, (steps - 16) as nat);
    }
    let first: nat = if !system.event_loop {
        0
    } else if !system.display {
        1
    } else if !system.session {
        2
    } else if system.gpu is Err {
        3
    } else if !system.gpu_manager {
        4
    } else if !system.udev_backend {
        5
    } else if !system.seat {
        6
    } else if !system.input_source {
        7
    } else if !system.session_source {
        8
    } else if system.active_for_devices && system.brought_up is Err {
        9
    } else if !system.durations {
        10
    } else if !system.udev_source {
        11
    } else {
        12
    };
    lemma_first_failure(failures, first);
}

/// The course of the start, action by action, as long as nothing fails. Input is
/// suspended before it is registered where the session is not active by then, and
/// devices are brought up, once all that reports on them but the udev monitor and
/// the durations is registered, where it is active by then.
pub proof fn law_start_course(system: StartupSystem, config: UdevConfig)
    ensures
        ({
            let action = |steps: nat| system.after(config, steps).1;
            let input: nat = if system.active_for_input {
                9
            } else {
                10
            };
            let durations: nat = if system.active_for_devices {
                input + 4
            } else {
                input + 3
            };
            &&& action(0) is CreateEventLoop
            &&& system.event_loop ==> {
                &&& action(1) is CreateDisplay
                &&& system.display ==> {
                    &&& action(2) is OpenSession
                    &&& system.session ==> {
                        &&& action(3) == StartupActionView::SelectGpu(config.drm_device)
                        &&& system.gpu is Ok ==> {
                            &&& action(4) is CreateGpuManager
                            &&& system.gpu_manager ==> {
                                &&& action(5) is CreateState
                                &&& action(6) is CreateUdevBackend
                                &&& system.udev_backend ==> {
                                    &&& action(7) is AssignSeat
                                    &&& system.seat ==> {
                                        &&& action(8) is CheckSession
                                        &&& !system.active_for_input ==> action(9) is SuspendInput
                                        &&& action(input) is RegisterInput
                                        &&& system.input_source ==> {
                                            &&& action(input + 1) is RegisterSession
                                            &&& system.session_source ==> {
                                                &&& action(input + 2) is CheckSession
                                                &&& system.active_for_devices ==> action(input + 3)
                                                    == (StartupActionView::BringUpDevices {
                                                    card_fallback: true,
                                                })
                                                &&& (system.active_for_devices
                                                    ==> system.brought_up is Ok) ==> {
                                                    &&& action(durations) is RegisterDurations
                                                    &&& system.durations ==> action(durations + 1)
                                                        is RegisterUdev
                                                }
                                            }
                                        }
                                    }
                                }
                            }
                        }
                    }
                }
            }
        }),
{
    reveal_with_fuel(StartupSystem::after, 16);
}

/// What the user configured is what the GPU manager and the backend are made
/// with. The backend starts with the chosen GPU, without any device, without
/// debug flags, and with no global announced.
pub proof fn law_backend_starts_as_configured(
    system: StartupSystem,
    config: UdevConfig,
    steps: nat,
)
    ensures
        match system.after(config, steps).1 {
            StartupActionView::CreateGpuManager { disable_gles_instancing } => {
                disable_gles_instancing <==> config.disable_gles_instancing
            },
            StartupActionView::CreateState(data) => {
                &&& system.gpu == Ok::<DrmNode, InitError>(data.primary_gpu)
                &&& data.backends.dom() == Set::<u64>::empty()
                &&& data.debug_flags.bits == 0
                &&& !data.dmabuf_state
                &&& !data.syncobj_state
                &&& data.disable_10bit_color <==> config.disable_10bit_color
                &&& data.disable_direct_scanout <==> config.disable_direct_scanout
            },
            _ => true,
        },
{
    law_configuration_is_used(system, config, steps);
    assert(Map::<u64, crate::data::BackendView>::empty().dom() =~= Set::<u64>::empty());
}

/// Each stage takes the one kind of reply that its action can have, and the last
/// one takes none.
pub proof fn law_start_takes_its_replies(stage: StartupStage, reply: StartupReply)
    ensures
        stage.spec_awaits(reply) <==> {
            ||| stage is SelectingGpu && reply is Gpu
            ||| (stage is CheckingInput || stage is CheckingDevices) && reply is Active
            ||| stage is BringingUp && reply is BroughtUp
            ||| (stage is CreatingState || stage is SuspendingInput) && reply is Done
            ||| (stage is CreatingEventLoop || stage is CreatingDisplay || stage is OpeningSession
                || stage is CreatingGpuManager || stage is CreatingUdevBackend
                || stage is AssigningSeat || stage is RegisteringInput || stage is RegisteringSession
                || stage is RegisteringDurations || stage is RegisteringUdev) && reply is Outcome
        },
{
}

/// What an action holds is what is seen of it.
pub proof fn law_start_action_is_seen_whole(action: StartupAction)
    ensures
        action is CreateEventLoop <==> action@ is CreateEventLoop,
        action is CreateDisplay <==> action@ is CreateDisplay,
        action is OpenSession <==> action@ is OpenSession,
        action matches StartupAction::SelectGpu(path) ==> action@ == StartupActionView::SelectGpu(
            path,
        ),
        action matches StartupAction::CreateGpuManager { disable_gles_instancing } ==> action@ == (
        StartupActionView::CreateGpuManager { disable_gles_instancing }),
        action matches StartupAction::CreateState(data) ==> action@
            == StartupActionView::CreateState(data@),
        action is CreateUdevBackend <==> action@ is CreateUdevBackend,
        action is AssignSeat <==> action@ is AssignSeat,
        action is CheckSession <==> action@ is CheckSession,
        action is SuspendInput <==> action@ is SuspendInput,
        action is RegisterInput <==> action@ is RegisterInput,
        action is RegisterSession <==> action@ is RegisterSession,
        action matches StartupAction::BringUpDevices { card_fallback } ==> action@ == (
        StartupActionView::BringUpDevices { card_fallback }),
        action is RegisterDurations <==> action@ is RegisterDurations,
        action is RegisterUdev <==> action@ is RegisterUdev,
        action matches StartupAction::Finished(result) ==> action@ == StartupActionView::Finished(
            result,
        ),
{
}

/// A step that failed ends the start with a failure, and a step that worked never
/// does, whatever was configured.
pub proof fn law_failures_end_the_start(
    stage: StartupStage,
    config: UdevConfig,
    reply: StartupReply,
)
    requires
        stage.spec_awaits(reply),
    ensures
        ({
            let next = stage.next(config, reply);
            let failed = match reply {
                StartupReply::Outcome(worked) => !worked,
                StartupReply::Gpu(chosen) => chosen is Err,
                StartupReply::BroughtUp(result) => result is Err,
                _ => false,
            };
            &&& failed <==> next.1 is Finished && next.1->Finished_0 is Err
            &&& failed ==> next.0 is Finished
            &&& reply matches StartupReply::Gpu(Err(error)) ==> next.1
                == StartupActionView::Finished(Err(error))
            &&& reply matches StartupReply::BroughtUp(Err(error)) ==> next.1
                == StartupActionView::Finished(Err(error))
        }),
{
}

/// Whether the session is active decides on input and on devices: input is
/// suspended exactly where it is not, devices are brought up exactly where it is.
pub proof fn law_session_decides_on_input_and_devices(config: UdevConfig, active: bool)
    ensures
        ({
            let input = StartupStage::CheckingInput.next(config, StartupReply::Active(active)).1;
            let devices = StartupStage::CheckingDevices.next(
                config,
                StartupReply::Active(active),
            ).1;
            &&& input is SuspendInput <==> !active
            &&& input is RegisterInput <==> active
            &&& devices is BringUpDevices <==> active
            &&& devices is RegisterDurations <==> !active
        }),
{
}

} // verus!
