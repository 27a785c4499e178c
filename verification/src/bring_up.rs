//! Bringing the devices of a seat up for the first time.
//!
//! This happens when the backend is started in an active session, and otherwise
//! when the session first becomes active. The devices come first, then what
//! depends on the renderer of the primary GPU: the formats that clients are
//! told, and the globals for dmabufs and explicit synchronisation.

use crate::data::{UdevData, UdevView};
use crate::enumerate::{
    device_plan, law_primary_has_the_number_of_the_gpu, plan_devices, DevicePlan, DevicePlanView,
};
use crate::error::InitError;
use crate::node::DrmNode;
use vstd::prelude::*;

verus! {

broadcast use vstd::std_specs::hash::group_hash_axioms;

/// What has to be done next.
pub enum BringUpAction {
    /// List the devices of the seat, and find the card node of the primary GPU.
    ListDevices,
    /// Bring up the primary device, which is at this position of the list.
    AddPrimary(usize),
    /// Bring up another device, which is at this position of the list.
    AddOther(usize),
    /// Take the renderer of this node.
    OpenRenderer(DrmNode),
    /// Find the card node of the primary GPU.
    FindCardNode(DrmNode),
    /// Tell clients the formats of the renderer that was taken last, and bind
    /// EGL to the display.
    AnnounceFormats,
    /// Build the default dmabuf feedback for this main device, with the formats
    /// of the same renderer, and announce the dmabuf global with it.
    AnnounceDmabuf(DrmNode),
    /// Make dmabuf feedback for the surfaces that have none.
    MakeFeedback,
    /// Find the card node whose device imports timelines.
    FindImportNode(DrmNode),
    /// Announce explicit synchronisation if the device of this node supports it.
    AnnounceSyncobj(DrmNode),
    /// Nothing: the devices are up, or could not be brought up.
    Finished(Result<(), InitError>),
}

/// What came of it.
pub enum BringUpReply {
    /// It has been done.
    Done,
    /// Whether it worked.
    Outcome(bool),
    /// The numbers of the devices, and the card node of the primary GPU.
    Devices { card_node: Option<DrmNode>, ids: Vec<u64> },
    /// What became of the primary device.
    Primary(PrimaryOutcome),
    /// The node, where there is one.
    Node(Option<DrmNode>),
}

/// What became of the primary device.
#[derive(Clone, Copy, Debug, PartialEq, Eq, Hash, Structural)]
pub enum PrimaryOutcome {
    /// Its number is that of no DRM node.
    NoNode,
    /// It could not be brought up.
    Failed,
    /// It is up.
    Added,
}

/// How far the devices have been brought up.
pub enum BringUpStage {
    ListingDevices,
    /// The other devices come next.
    AddingPrimary { others: Vec<usize> },
    /// The devices that have not been tried yet.
    AddingOther { rest: Vec<usize> },
    OpeningRenderer,
    FindingCard,
    OpeningCardRenderer,
    AnnouncingFormats,
    AnnouncingDmabuf,
    MakingFeedback,
    FindingImportNode,
    AnnouncingSyncobj,
    Finished,
}

/// Brings the devices up.
pub struct BringUp {
    /// Whether the card node of the primary GPU may stand in for it as the
    /// renderer. Some drivers know no renderer for the render node.
    pub card_fallback: bool,
    pub stage: BringUpStage,
}

/// What a [`BringUpAction`] holds.
pub ghost enum BringUpActionView {
    ListDevices,
    AddPrimary(usize),
    AddOther(usize),
    OpenRenderer(DrmNode),
    FindCardNode(DrmNode),
    AnnounceFormats,
    AnnounceDmabuf(DrmNode),
    MakeFeedback,
    FindImportNode(DrmNode),
    AnnounceSyncobj(DrmNode),
    Finished(Result<(), InitError>),
}

/// What a [`BringUpReply`] holds.
pub ghost enum BringUpReplyView {
    Done,
    Outcome(bool),
    Devices { card_node: Option<DrmNode>, ids: Seq<u64> },
    Primary(PrimaryOutcome),
    Node(Option<DrmNode>),
}

/// What a [`BringUpStage`] holds.
pub ghost enum BringUpStageView {
    ListingDevices,
    AddingPrimary { others: Seq<usize> },
    AddingOther { rest: Seq<usize> },
    OpeningRenderer,
    FindingCard,
    OpeningCardRenderer,
    AnnouncingFormats,
    AnnouncingDmabuf,
    MakingFeedback,
    FindingImportNode,
    AnnouncingSyncobj,
    Finished,
}

/// What a [`BringUp`] holds.
pub ghost struct BringUpView {
    pub card_fallback: bool,
    pub stage: BringUpStageView,
}

impl View for BringUpAction {
    type V = BringUpActionView;

    open spec fn view(&self) -> BringUpActionView {
        match self {
            BringUpAction::ListDevices => BringUpActionView::ListDevices,
            BringUpAction::AddPrimary(position) => BringUpActionView::AddPrimary(*position),
            BringUpAction::AddOther(position) => BringUpActionView::AddOther(*position),
            BringUpAction::OpenRenderer(node) => BringUpActionView::OpenRenderer(*node),
            BringUpAction::FindCardNode(node) => BringUpActionView::FindCardNode(*node),
            BringUpAction::AnnounceFormats => BringUpActionView::AnnounceFormats,
            BringUpAction::AnnounceDmabuf(node) => BringUpActionView::AnnounceDmabuf(*node),
            BringUpAction::MakeFeedback => BringUpActionView::MakeFeedback,
            BringUpAction::FindImportNode(node) => BringUpActionView::FindImportNode(*node),
            BringUpAction::AnnounceSyncobj(node) => BringUpActionView::AnnounceSyncobj(*node),
            BringUpAction::Finished(result) => BringUpActionView::Finished(*result),
        }
    }
}

impl View for BringUpReply {
    type V = BringUpReplyView;

    open spec fn view(&self) -> BringUpReplyView {
        match self {
            BringUpReply::Done => BringUpReplyView::Done,
            BringUpReply::Outcome(worked) => BringUpReplyView::Outcome(*worked),
            BringUpReply::Devices { card_node, ids } => BringUpReplyView::Devices {
                card_node: *card_node,
                ids: ids@,
            },
            BringUpReply::Primary(outcome) => BringUpReplyView::Primary(*outcome),
            BringUpReply::Node(node) => BringUpReplyView::Node(*node),
        }
    }
}

impl View for BringUpStage {
    type V = BringUpStageView;

    open spec fn view(&self) -> BringUpStageView {
        match self {
            BringUpStage::ListingDevices => BringUpStageView::ListingDevices,
            BringUpStage::AddingPrimary { others } => BringUpStageView::AddingPrimary {
                others: others@,
            },
            BringUpStage::AddingOther { rest } => BringUpStageView::AddingOther { rest: rest@ },
            BringUpStage::OpeningRenderer => BringUpStageView::OpeningRenderer,
            BringUpStage::FindingCard => BringUpStageView::FindingCard,
            BringUpStage::OpeningCardRenderer => BringUpStageView::OpeningCardRenderer,
            BringUpStage::AnnouncingFormats => BringUpStageView::AnnouncingFormats,
            BringUpStage::AnnouncingDmabuf => BringUpStageView::AnnouncingDmabuf,
            BringUpStage::MakingFeedback => BringUpStageView::MakingFeedback,
            BringUpStage::FindingImportNode => BringUpStageView::FindingImportNode,
            BringUpStage::AnnouncingSyncobj => BringUpStageView::AnnouncingSyncobj,
            BringUpStage::Finished => BringUpStageView::Finished,
        }
    }
}

impl View for BringUp {
    type V = BringUpView;

    open spec fn view(&self) -> BringUpView {
        BringUpView { card_fallback: self.card_fallback, stage: self.stage@ }
    }
}

/// A stage, what is known of the devices on entering it, and what is done there.
pub type BringUpStep = (BringUpStageView, UdevView, BringUpActionView);

/// The devices cannot be brought up.
pub open spec fn fail(data: UdevView, error: InitError) -> BringUpStep {
    (BringUpStageView::Finished, data, BringUpActionView::Finished(Err(error)))
}

/// The first of `others` is tried; where there is none left, the renderer comes
/// next.
pub open spec fn add_others(data: UdevView, others: Seq<usize>) -> BringUpStep {
    if others.len() == 0 {
        (
            BringUpStageView::OpeningRenderer,
            data,
            BringUpActionView::OpenRenderer(data.primary_gpu),
        )
    } else {
        (
            BringUpStageView::AddingOther { rest: others.drop_first() },
            data,
            BringUpActionView::AddOther(others[0]),
        )
    }
}

impl BringUpView {
    /// Whether `reply` answers the action that was asked for last.
    pub open spec fn awaits(self, reply: BringUpReplyView) -> bool {
        match self.stage {
            BringUpStageView::ListingDevices => reply is Devices,
            BringUpStageView::AddingPrimary { .. } => reply is Primary,
            BringUpStageView::AddingOther { .. } | BringUpStageView::OpeningRenderer
            | BringUpStageView::OpeningCardRenderer | BringUpStageView::AnnouncingDmabuf
            | BringUpStageView::AnnouncingSyncobj => {
                reply is Outcome
            },
            BringUpStageView::FindingCard | BringUpStageView::FindingImportNode => reply is Node,
            BringUpStageView::Finished => false,
            _ => reply is Done,
        }
    }

    /// How it goes on after `reply`, and what is then known of the devices.
    /// Another device that could not be brought up is passed over.
    pub open spec fn next(self, data: UdevView, reply: BringUpReplyView) -> BringUpStep {
        let gpu = data.primary_gpu;
        let done = (BringUpStageView::Finished, data, BringUpActionView::Finished(Ok(())));
        let formats = (
            BringUpStageView::AnnouncingFormats,
            data,
            BringUpActionView::AnnounceFormats,
        );
        match (self.stage, reply) {
            (BringUpStageView::ListingDevices, BringUpReplyView::Devices { card_node, ids }) => {
                let plan = device_plan(ids, card_node, gpu);
                match plan.primary {
                    Some(position) => (
                        BringUpStageView::AddingPrimary { others: plan.others },
                        data,
                        BringUpActionView::AddPrimary(position),
                    ),
                    None => add_others(data, plan.others),
                }
            },
            (
                BringUpStageView::AddingPrimary { others },
                BringUpReplyView::Primary(outcome),
            ) => match outcome {
                PrimaryOutcome::NoNode => fail(data, InitError::PrimaryNode),
                PrimaryOutcome::Failed => fail(data, InitError::PrimaryDevice),
                PrimaryOutcome::Added => add_others(data, others),
            },
            (BringUpStageView::AddingOther { rest }, _) => add_others(data, rest),
            (BringUpStageView::OpeningRenderer, BringUpReplyView::Outcome(opened)) => if opened {
                formats
            } else if self.card_fallback {
                (BringUpStageView::FindingCard, data, BringUpActionView::FindCardNode(gpu))
            } else {
                fail(data, InitError::Renderer)
            },
            (BringUpStageView::FindingCard, BringUpReplyView::Node(card_node)) => match card_node {
                Some(card) => (
                    BringUpStageView::OpeningCardRenderer,
                    data,
                    BringUpActionView::OpenRenderer(card),
                ),
                None => fail(data, InitError::Renderer),
            },
            (BringUpStageView::OpeningCardRenderer, BringUpReplyView::Outcome(opened)) => if opened {
                formats
            } else {
                fail(data, InitError::Renderer)
            },
            (BringUpStageView::AnnouncingFormats, _) => (
                BringUpStageView::AnnouncingDmabuf,
                data,
                BringUpActionView::AnnounceDmabuf(gpu),
            ),
            (BringUpStageView::AnnouncingDmabuf, BringUpReplyView::Outcome(built)) => if built {
                (
                    BringUpStageView::MakingFeedback,
                    UdevView { dmabuf_state: true, ..data },
                    BringUpActionView::MakeFeedback,
                )
            } else {
                fail(data, InitError::DmabufFeedback)
            },
            (BringUpStageView::MakingFeedback, _) => (
                BringUpStageView::FindingImportNode,
                data,
                BringUpActionView::FindImportNode(gpu),
            ),
            (BringUpStageView::FindingImportNode, BringUpReplyView::Node(card_node)) => if card_node
                is Some && data.backends.contains_key(card_node->0.dev_id) {
                (
                    BringUpStageView::AnnouncingSyncobj,
                    data,
                    BringUpActionView::AnnounceSyncobj(card_node->0),
                )
            } else {
                done
            },
            (BringUpStageView::AnnouncingSyncobj, BringUpReplyView::Outcome(supported)) => (
                BringUpStageView::Finished,
                UdevView { syncobj_state: data.syncobj_state || supported, ..data },
                BringUpActionView::Finished(Ok(())),
            ),
            _ => done,
        }
    }
}

impl BringUp {
    /// Begins to bring the devices up.
    pub fn start(card_fallback: bool) -> (started: (BringUp, BringUpAction))
        ensures
            started.0@ == (BringUpView { card_fallback, stage: BringUpStageView::ListingDevices }),
            started.1@ == BringUpActionView::ListDevices,
    {
        (BringUp { card_fallback, stage: BringUpStage::ListingDevices }, BringUpAction::ListDevices)
    }

    /// Whether `reply` answers the action that was asked for last.
    pub fn awaits(&self, reply: &BringUpReply) -> (fits: bool)
        ensures
            fits == self@.awaits(reply@),
    {
        match &self.stage {
            BringUpStage::ListingDevices => matches!(reply, BringUpReply::Devices { .. }),
            BringUpStage::AddingPrimary { .. } => matches!(reply, BringUpReply::Primary(_)),
            BringUpStage::AddingOther { .. } | BringUpStage::OpeningRenderer
            | BringUpStage::OpeningCardRenderer | BringUpStage::AnnouncingDmabuf
            | BringUpStage::AnnouncingSyncobj => {
                matches!(reply, BringUpReply::Outcome(_))
            },
            BringUpStage::FindingCard | BringUpStage::FindingImportNode => {
                matches!(reply, BringUpReply::Node(_))
            },
            BringUpStage::Finished => false,
            _ => matches!(reply, BringUpReply::Done),
        }
    }

    fn failed(error: InitError) -> (failed: (BringUpStage, BringUpAction))
        ensures
            failed.0@ == BringUpStageView::Finished,
            failed.1@ == BringUpActionView::Finished(Err(error)),
    {
        (BringUpStage::Finished, BringUpAction::Finished(Err(error)))
    }

    fn add_others(data: &UdevData, others: Vec<usize>) -> (next: (BringUpStage, BringUpAction))
        ensures
            (next.0@, data@, next.1@) == add_others(data@, others@),
    {
        if others.len() == 0 {
            (BringUpStage::OpeningRenderer, BringUpAction::OpenRenderer(data.primary_gpu))
        } else {
            let mut rest: Vec<usize> = others;
            let position: usize = rest.remove(0);
            assert(rest@ =~= others@.drop_first());
            (BringUpStage::AddingOther { rest }, BringUpAction::AddOther(position))
        }
    }

    /// Goes on once an action has been carried out.
    pub fn step(self, data: &mut UdevData, reply: BringUpReply) -> (stepped: (
        BringUp,
        BringUpAction,
    ))
        requires
            self@.awaits(reply@),
        ensures
            stepped.0@.card_fallback == self@.card_fallback,
            (stepped.0@.stage, final(data)@, stepped.1@) == self@.next(old(data)@, reply@),
    {
        let gpu: DrmNode = data.primary_gpu;
        let (stage, action): (BringUpStage, BringUpAction) = match (self.stage, reply) {
            (BringUpStage::ListingDevices, BringUpReply::Devices { card_node, ids }) => {
                let plan: DevicePlan = plan_devices(&ids, card_node, gpu);
                match plan.primary {
                    Some(position) => (
                        BringUpStage::AddingPrimary { others: plan.others },
                        BringUpAction::AddPrimary(position),
                    ),
                    None => Self::add_others(data, plan.others),
                }
            },
            (BringUpStage::AddingPrimary { others }, BringUpReply::Primary(outcome)) => {
                match outcome {
                    PrimaryOutcome::NoNode => Self::failed(InitError::PrimaryNode),
                    PrimaryOutcome::Failed => Self::failed(InitError::PrimaryDevice),
                    PrimaryOutcome::Added => Self::add_others(data, others),
                }
            },
            (BringUpStage::AddingOther { rest }, _) => Self::add_others(data, rest),
            (BringUpStage::OpeningRenderer, BringUpReply::Outcome(opened)) => if opened {
                (BringUpStage::AnnouncingFormats, BringUpAction::AnnounceFormats)
            } else if self.card_fallback {
                (BringUpStage::FindingCard, BringUpAction::FindCardNode(gpu))
            } else {
                Self::failed(InitError::Renderer)
            },
            (BringUpStage::FindingCard, BringUpReply::Node(card_node)) => match card_node {
                Some(card) => (
                    BringUpStage::OpeningCardRenderer,
                    BringUpAction::OpenRenderer(card),
                ),
                None => Self::failed(InitError::Renderer),
            },
            (BringUpStage::OpeningCardRenderer, BringUpReply::Outcome(opened)) => if opened {
                (BringUpStage::AnnouncingFormats, BringUpAction::AnnounceFormats)
            } else {
                Self::failed(InitError::Renderer)
            },
            (BringUpStage::AnnouncingFormats, _) => (
                BringUpStage::AnnouncingDmabuf,
                BringUpAction::AnnounceDmabuf(gpu),
            ),
            (BringUpStage::AnnouncingDmabuf, BringUpReply::Outcome(built)) => if built {
                data.dmabuf_state = true;
                (BringUpStage::MakingFeedback, BringUpAction::MakeFeedback)
            } else {
                Self::failed(InitError::DmabufFeedback)
            },
            (BringUpStage::MakingFeedback, _) => (
                BringUpStage::FindingImportNode,
                BringUpAction::FindImportNode(gpu),
            ),
            (BringUpStage::FindingImportNode, BringUpReply::Node(card_node)) => match card_node {
                Some(card) => if data.backends.contains_key(&card.dev_id) {
                    (BringUpStage::AnnouncingSyncobj, BringUpAction::AnnounceSyncobj(card))
                } else {
                    (BringUpStage::Finished, BringUpAction::Finished(Ok(())))
                },
                None => (BringUpStage::Finished, BringUpAction::Finished(Ok(()))),
            },
            (BringUpStage::AnnouncingSyncobj, BringUpReply::Outcome(supported)) => {
                if supported {
                    data.syncobj_state = true;
                }
                (BringUpStage::Finished, BringUpAction::Finished(Ok(())))
            },
            _ => (BringUpStage::Finished, BringUpAction::Finished(Ok(()))),
        };
        (BringUp { card_fallback: self.card_fallback, stage }, action)
    }
}

/// A seat whose devices are brought up: what each action comes to there, and
/// what is known of the devices when it has been carried out.
pub ghost struct BringUpSeat {
    pub card_fallback: bool,
    pub primary_gpu: DrmNode,
    pub ids: Seq<u64>,
    pub card_node: Option<DrmNode>,
    pub primary: PrimaryOutcome,
    /// Whether the device at a position comes up, where it is not the primary.
    pub comes_up: spec_fn(usize) -> bool,
    pub renders: spec_fn(DrmNode) -> bool,
    pub fallback_node: Option<DrmNode>,
    pub dmabuf: bool,
    pub import_node: Option<DrmNode>,
    pub syncobj: bool,
    pub data: spec_fn(nat) -> UdevView,
}

impl BringUpSeat {
    /// The primary GPU stays the same throughout.
    pub open spec fn keeps_primary_gpu(self) -> bool {
        forall|steps: nat| (#[trigger] (self.data)(steps)).primary_gpu == self.primary_gpu
    }

    /// Nothing but the steps changes which globals have been announced.
    pub open spec fn keeps_globals(self) -> bool {
        forall|steps: nat|
            ({
                let (stage, action) = #[trigger] self.after(steps);
                let bring_up = BringUpView { card_fallback: self.card_fallback, stage };
                let before = (self.data)(steps);
                let left = if action is Finished {
                    before
                } else {
                    bring_up.next(before, self.answer(action)).1
                };
                let then = (self.data)(steps + 1);
                &&& then.dmabuf_state == left.dmabuf_state
                &&& then.syncobj_state == left.syncobj_state
            })
    }

    /// Whether a renderer can be had: that of the primary GPU, or that of its
    /// card node where that may stand in.
    pub open spec fn has_renderer(self) -> bool {
        ||| (self.renders)(self.primary_gpu)
        ||| self.card_fallback && self.fallback_node is Some && (self.renders)(
            self.fallback_node->0,
        )
    }

    /// The node whose renderer is used, where one can be had: the primary GPU,
    /// or else its card node.
    pub open spec fn renderer_node(self) -> DrmNode {
        if (self.renders)(self.primary_gpu) {
            self.primary_gpu
        } else {
            self.fallback_node->0
        }
    }

    /// In which order the devices are tried.
    pub open spec fn plan(self) -> DevicePlanView {
        device_plan(self.ids, self.card_node, self.primary_gpu)
    }

    /// Whether one of the devices is the primary one.
    pub open spec fn has_primary(self) -> bool {
        self.plan().primary is Some
    }

    /// After how many actions the other devices are tried.
    pub open spec fn others_at(self) -> nat {
        if self.has_primary() {
            2
        } else {
            1
        }
    }

    /// How many actions are taken at most.
    pub open spec fn actions(self) -> nat {
        10 + self.plan().others.len()
    }

    /// Whether the device that imports timelines is known once its node has
    /// been looked up.
    pub open spec fn knows_import_device(self) -> bool {
        self.import_node is Some && exists|steps: nat|
            (#[trigger] self.after(steps)).0 is FindingImportNode && (self.data)(
                steps,
            ).backends.contains_key(self.import_node->0.dev_id)
    }

    /// What it comes to: a failure of the primary device counts, a failure of
    /// another device does not.
    pub open spec fn result(self) -> Result<(), InitError> {
        if self.has_primary() && self.primary == PrimaryOutcome::NoNode {
            Err(InitError::PrimaryNode)
        } else if self.has_primary() && self.primary == PrimaryOutcome::Failed {
            Err(InitError::PrimaryDevice)
        } else if !self.has_renderer() {
            Err(InitError::Renderer)
        } else if !self.dmabuf {
            Err(InitError::DmabufFeedback)
        } else {
            Ok(())
        }
    }

    /// What an action comes to.
    pub open spec fn answer(self, action: BringUpActionView) -> BringUpReplyView {
        match action {
            BringUpActionView::ListDevices => BringUpReplyView::Devices {
                card_node: self.card_node,
                ids: self.ids,
            },
            BringUpActionView::AddPrimary(_) => BringUpReplyView::Primary(self.primary),
            BringUpActionView::AddOther(position) => BringUpReplyView::Outcome(
                (self.comes_up)(position),
            ),
            BringUpActionView::OpenRenderer(node) => BringUpReplyView::Outcome(
                (self.renders)(node),
            ),
            BringUpActionView::FindCardNode(_) => BringUpReplyView::Node(self.fallback_node),
            BringUpActionView::AnnounceDmabuf(_) => BringUpReplyView::Outcome(self.dmabuf),
            BringUpActionView::FindImportNode(_) => BringUpReplyView::Node(self.import_node),
            BringUpActionView::AnnounceSyncobj(_) => BringUpReplyView::Outcome(self.syncobj),
            _ => BringUpReplyView::Done,
        }
    }

    /// The stage and the action after `steps` actions.
    pub open spec fn after(self, steps: nat) -> (BringUpStageView, BringUpActionView)
        decreases steps,
    {
        if steps == 0 {
            (BringUpStageView::ListingDevices, BringUpActionView::ListDevices)
        } else {
            let earlier = (steps - 1) as nat;
            let (stage, action) = self.after(earlier);
            if action is Finished {
                (stage, action)
            } else {
                let bring_up = BringUpView { card_fallback: self.card_fallback, stage };
                let next = bring_up.next((self.data)(earlier), self.answer(action));
                (next.0, next.2)
            }
        }
    }
}

proof fn lemma_finished_stays(seat: BringUpSeat, steps: nat, more: nat)
    requires
        seat.after(steps).1 is Finished,
    ensures
        seat.after(steps + more) == seat.after(steps),
    decreases more,
{
    if more > 0 {
        lemma_finished_stays(seat, steps, (more - 1) as nat);
    }
}

/// The other devices are tried one after the other, whatever becomes of each,
/// and the renderer comes after all of them.
proof fn lemma_others(seat: BringUpSeat, tried: nat)
    requires
        seat.keeps_primary_gpu(),
        seat.has_primary() ==> seat.primary == PrimaryOutcome::Added,
        tried <= seat.plan().others.len(),
    ensures
        ({
            let others = seat.plan().others;
            let next = add_others((seat.data)(0), others.skip(tried as int));
            seat.after(seat.others_at() + tried) == (next.0, next.2)
        }),
    decreases tried,
{
    let others = seat.plan().others;
    assert((seat.data)(0).primary_gpu == seat.primary_gpu);
    if tried == 0 {
        reveal_with_fuel(BringUpSeat::after, 3);
        assert(others.skip(0) =~= others);
        assert((seat.data)(1).primary_gpu == seat.primary_gpu);
    } else {
        let earlier = (tried - 1) as nat;
        lemma_others(seat, earlier);
        let steps = seat.others_at() + earlier;
        assert((seat.data)(steps).primary_gpu == seat.primary_gpu);
        assert(others.skip(earlier as int).drop_first() =~= others.skip(tried as int));
        assert(seat.after(steps + 1) == seat.after(seat.others_at() + tried));
    }
}

/// On every seat it comes to an end, and to the end that
/// [`BringUpSeat::result`] describes.
pub proof fn law_bring_up_result(seat: BringUpSeat)
    requires
        seat.keeps_primary_gpu(),
    ensures
        seat.after(seat.actions()) == (
            BringUpStageView::Finished,
            BringUpActionView::Finished(seat.result()),
        ),
{
    reveal_with_fuel(BringUpSeat::after, 3);
    let finished = (BringUpStageView::Finished, BringUpActionView::Finished(seat.result()));
    let most = seat.actions();
    assert((seat.data)(0).primary_gpu == seat.primary_gpu);
    if seat.has_primary() && seat.primary != PrimaryOutcome::Added {
        assert(seat.after(2) == finished);
        lemma_finished_stays(seat, 2, (most - 2) as nat);
    } else {
        let listed = seat.others_at() + seat.plan().others.len();
        lemma_others(seat, seat.plan().others.len());
        assert(seat.after(listed) == (
            BringUpStageView::OpeningRenderer,
            BringUpActionView::OpenRenderer(seat.primary_gpu),
        ));
        assert((seat.data)(listed).primary_gpu == seat.primary_gpu);
        let opened: nat = if (seat.renders)(seat.primary_gpu) {
            listed + 1
        } else {
            listed + 3
        };
        assert(seat.after(listed + 2) == seat.after((listed + 1) + 1));
        assert(seat.after(listed + 3) == seat.after((listed + 2) + 1));
        if !seat.has_renderer() {
            assert(seat.after(listed + 3) == finished);
            lemma_finished_stays(seat, listed + 3, (most - (listed + 3)) as nat);
        } else {
            assert(seat.after(opened).0 == BringUpStageView::AnnouncingFormats);
            assert((seat.data)(opened).primary_gpu == seat.primary_gpu);
            assert(seat.after(opened + 1) == (
                BringUpStageView::AnnouncingDmabuf,
                BringUpActionView::AnnounceDmabuf(seat.primary_gpu),
            ));
            assert(seat.after(opened + 2) == seat.after((opened + 1) + 1));
            assert(seat.after(opened + 3) == seat.after((opened + 2) + 1));
            assert(seat.after(opened + 4) == seat.after((opened + 3) + 1));
            assert(seat.after(opened + 5) == seat.after((opened + 4) + 1));
            assert(seat.after(opened + 5) == finished);
            lemma_finished_stays(seat, opened + 5, (most - (opened + 5)) as nat);
        }
    }
}

/// What is done while a renderer is looked for and its formats are announced.
proof fn lemma_renderer_actions(seat: BringUpSeat, steps: nat)
    requires
        seat.keeps_primary_gpu(),
    ensures
        ({
            let (stage, action) = seat.after(steps);
            let falls_back = seat.card_fallback && !(seat.renders)(seat.primary_gpu);
            &&& stage is OpeningRenderer ==> action == BringUpActionView::OpenRenderer(
                seat.primary_gpu,
            )
            &&& stage is FindingCard ==> action is FindCardNode && falls_back
            &&& stage is OpeningCardRenderer ==> falls_back && seat.fallback_node is Some && action
                == BringUpActionView::OpenRenderer(seat.fallback_node->0)
            &&& stage is AnnouncingFormats <==> action is AnnounceFormats
            &&& stage is AnnouncingDmabuf <==> action is AnnounceDmabuf
            &&& action is AnnounceDmabuf ==> action == BringUpActionView::AnnounceDmabuf(
                seat.primary_gpu,
            )
        }),
    decreases steps,
{
    if steps > 0 {
        let earlier = (steps - 1) as nat;
        lemma_renderer_actions(seat, earlier);
        law_replies_are_awaited(seat, earlier);
        assert((seat.data)(earlier).primary_gpu == seat.primary_gpu);
    }
}

/// The formats that clients are told are those of the renderer that was opened
/// just before: that of the primary GPU, or that of its card node where the
/// primary GPU has none and the card node may stand in. The dmabuf global
/// follows at once, so it offers the formats of the same renderer, and its main
/// device is the primary GPU.
pub proof fn law_formats_are_those_of_the_renderer(seat: BringUpSeat, steps: nat)
    requires
        seat.keeps_primary_gpu(),
    ensures
        seat.after(steps + 1).1 is AnnounceFormats ==> {
            &&& seat.after(steps).1 == BringUpActionView::OpenRenderer(seat.renderer_node())
            &&& (seat.renders)(seat.renderer_node())
            &&& !(seat.renders)(seat.primary_gpu) ==> seat.card_fallback
                && seat.fallback_node is Some
        },
        seat.after(steps + 1).1 is AnnounceDmabuf ==> {
            &&& seat.after(steps).1 is AnnounceFormats
            &&& seat.after(steps + 1).1 == BringUpActionView::AnnounceDmabuf(seat.primary_gpu)
        },
{
    lemma_renderer_actions(seat, steps);
    lemma_renderer_actions(seat, steps + 1);
    law_replies_are_awaited(seat, steps);
}

/// Which globals have been announced at any time.
proof fn lemma_globals(seat: BringUpSeat, steps: nat)
    requires
        seat.keeps_globals(),
    ensures
        ({
            let (stage, action) = seat.after(steps);
            let at_start = (seat.data)(0);
            let now = (seat.data)(steps);
            let succeeded = action is Finished && action->Finished_0 is Ok;
            let announced = succeeded || stage is MakingFeedback || stage is FindingImportNode
                || stage is AnnouncingSyncobj;
            &&& now.dmabuf_state == (at_start.dmabuf_state || announced)
            &&& stage is AnnouncingSyncobj ==> seat.knows_import_device()
            &&& at_start.syncobj_state ==> now.syncobj_state
            &&& now.syncobj_state ==> at_start.syncobj_state || (succeeded && seat.syncobj
                && seat.knows_import_device())
        }),
    decreases steps,
{
    if steps > 0 {
        let earlier = (steps - 1) as nat;
        lemma_globals(seat, earlier);
        law_replies_are_awaited(seat, earlier);
        assert(seat.after(earlier + 1) == seat.after(steps));
    }
}

/// Explicit synchronisation stays announced.
proof fn lemma_syncobj_stays(seat: BringUpSeat, steps: nat, more: nat)
    requires
        seat.keeps_globals(),
        (seat.data)(steps).syncobj_state,
    ensures
        (seat.data)(steps + more).syncobj_state,
    decreases more,
{
    if more > 0 {
        let earlier = (more - 1) as nat;
        lemma_syncobj_stays(seat, steps, earlier);
        law_replies_are_awaited(seat, steps + earlier);
        assert((seat.data)(steps + earlier + 1) == (seat.data)(steps + more));
    }
}

/// What is done where the import node is looked up, and where explicit
/// synchronisation is announced.
proof fn lemma_import_actions(seat: BringUpSeat, steps: nat)
    ensures
        ({
            let (stage, action) = seat.after(steps);
            &&& stage is FindingImportNode ==> action is FindImportNode
            &&& stage is AnnouncingSyncobj ==> action is AnnounceSyncobj
        }),
    decreases steps,
{
    if steps > 0 {
        lemma_import_actions(seat, (steps - 1) as nat);
        law_replies_are_awaited(seat, (steps - 1) as nat);
    }
}

/// The dmabuf global is announced exactly where the devices come up. Explicit
/// synchronisation is announced exactly where they come up, the device of the
/// card node of the primary GPU is among them, and that device supports it.
/// What had been announced before stays so.
pub proof fn law_announced_globals(seat: BringUpSeat)
    requires
        seat.keeps_primary_gpu(),
        seat.keeps_globals(),
    ensures
        (seat.data)(seat.actions()).dmabuf_state == ((seat.data)(0).dmabuf_state
            || seat.result() is Ok),
        (seat.data)(seat.actions()).syncobj_state == ((seat.data)(0).syncobj_state || (
        seat.result() is Ok && seat.knows_import_device() && seat.syncobj)),
{
    let most = seat.actions();
    law_bring_up_result(seat);
    lemma_globals(seat, most);
    if seat.knows_import_device() && seat.syncobj {
        let steps = choose|steps: nat|
            (#[trigger] seat.after(steps)).0 is FindingImportNode && (seat.data)(
                steps,
            ).backends.contains_key(seat.import_node->0.dev_id);
        if steps >= most {
            lemma_finished_stays(seat, most, (steps - most) as nat);
        }
        lemma_import_actions(seat, steps);
        assert(seat.after(steps + 1).0 is AnnouncingSyncobj);
        if steps + 1 >= most {
            lemma_finished_stays(seat, most, (steps + 1 - most) as nat);
        }
        lemma_import_actions(seat, steps + 1);
        assert((seat.data)((steps + 1) + 1).syncobj_state);
        lemma_syncobj_stays(seat, steps + 2, (most - (steps + 2)) as nat);
    }
}

/// Devices are brought up in the planned order, and nothing is announced before:
/// the primary one first, then each of the others. One that does not come up
/// does not keep those after it from being tried.
pub proof fn law_devices_come_first(seat: BringUpSeat)
    requires
        seat.keeps_primary_gpu(),
    ensures
        seat.after(0).1 == BringUpActionView::ListDevices,
        seat.has_primary() ==> seat.after(1).1 == BringUpActionView::AddPrimary(
            seat.plan().primary->0,
        ),
        (seat.has_primary() ==> seat.primary == PrimaryOutcome::Added) ==> {
            &&& forall|n: nat|
                n < seat.plan().others.len() ==> (#[trigger] seat.after(seat.others_at() + n)).1
                    == BringUpActionView::AddOther(seat.plan().others[n as int])
            &&& seat.after(seat.others_at() + seat.plan().others.len()).1
                == BringUpActionView::OpenRenderer(seat.primary_gpu)
        },
{
    reveal_with_fuel(BringUpSeat::after, 2);
    let others = seat.plan().others;
    assert((seat.data)(0).primary_gpu == seat.primary_gpu);
    if seat.has_primary() ==> seat.primary == PrimaryOutcome::Added {
        assert forall|n: nat| n < others.len() implies (#[trigger] seat.after(
            seat.others_at() + n,
        )).1 == BringUpActionView::AddOther(others[n as int]) by {
            lemma_others(seat, n);
            assert(others.skip(n as int)[0] == others[n as int]);
        }
        lemma_others(seat, others.len());
    }
}

/// Devices whose bring-up was left for the first activation are tried in the
/// order in which they would have been tried at the start, however many of them
/// come up.
pub proof fn law_deferred_order(at_start: BringUpSeat, deferred: BringUpSeat)
    requires
        at_start.keeps_primary_gpu(),
        deferred.keeps_primary_gpu(),
        deferred.primary_gpu == at_start.primary_gpu,
        deferred.ids == at_start.ids,
        deferred.card_node == at_start.card_node,
        deferred.primary == at_start.primary,
    ensures
        deferred.has_primary() ==> deferred.after(1).1 == at_start.after(1).1,
        (deferred.has_primary() ==> deferred.primary == PrimaryOutcome::Added) ==> forall|n: nat|
            n < deferred.plan().others.len() ==> (#[trigger] deferred.after(
                deferred.others_at() + n,
            )).1 == at_start.after(deferred.others_at() + n).1,
{
    law_devices_come_first(at_start);
    law_devices_come_first(deferred);
    if deferred.has_primary() ==> deferred.primary == PrimaryOutcome::Added {
        assert forall|n: nat| n < deferred.plan().others.len() implies (#[trigger] deferred.after(
            deferred.others_at() + n,
        )).1 == at_start.after(deferred.others_at() + n).1 by {
            assert(at_start.after(at_start.others_at() + n).1 == BringUpActionView::AddOther(
                at_start.plan().others[n as int],
            ));
        }
    }
}

/// The action is always one whose outcome the next step takes.
pub proof fn law_replies_are_awaited(seat: BringUpSeat, steps: nat)
    ensures
        ({
            let (stage, action) = seat.after(steps);
            action is Finished || (BringUpView {
                card_fallback: seat.card_fallback,
                stage,
            }).awaits(seat.answer(action))
        }),
    decreases steps,
{
    if steps > 0 {
        law_replies_are_awaited(seat, (steps - 1) as nat);
    }
}

/// What bringing the devices up comes to, over what the seat has.
///
/// A device is the primary one where its number is that of the primary GPU or of
/// its card node. Such a device has to be a DRM node and has to come up; no other
/// device has to. A renderer has to be had, from the primary GPU or, where it may
/// stand in, from the card node. The dmabuf feedback has to be built.
pub proof fn law_bring_up_by_what_works(seat: BringUpSeat, steps: nat)
    requires
        forall|n: nat| (#[trigger] (seat.data)(n)).primary_gpu == seat.primary_gpu,
        seat.ids.len() <= usize::MAX,
        seat.after(steps).1 is Finished,
    ensures
        ({
            let has_primary = exists|i: int|
                0 <= i < seat.ids.len() && ((#[trigger] seat.ids[i]) == seat.primary_gpu.dev_id
                    || seat.card_node == Some(DrmNode { dev_id: seat.ids[i] }));
            let card_renders = match seat.fallback_node {
                Some(card) => seat.card_fallback && (seat.renders)(card),
                None => false,
            };
            let renders = (seat.renders)(seat.primary_gpu) || card_renders;
            let end = seat.after(steps).1->Finished_0;
            &&& end == Err::<(), InitError>(InitError::PrimaryNode) <==> has_primary && seat.primary
                == PrimaryOutcome::NoNode
            &&& end == Err::<(), InitError>(InitError::PrimaryDevice) <==> has_primary
                && seat.primary == PrimaryOutcome::Failed
            &&& end == Err::<(), InitError>(InitError::Renderer) <==> (has_primary ==> seat.primary
                == PrimaryOutcome::Added) && !renders
            &&& end == Err::<(), InitError>(InitError::DmabufFeedback) <==> (has_primary
                ==> seat.primary == PrimaryOutcome::Added) && renders && !seat.dmabuf
            &&& end is Ok <==> (has_primary ==> seat.primary == PrimaryOutcome::Added) && renders
                && seat.dmabuf
        }),
{
    let plan = device_plan(seat.ids, seat.card_node, seat.primary_gpu);
    law_bring_up_result(seat);
    if steps < seat.actions() {
        lemma_finished_stays(seat, steps, (seat.actions() - steps) as nat);
    } else {
        lemma_finished_stays(seat, seat.actions(), (steps - seat.actions()) as nat);
    }
    if plan.primary is Some {
        law_primary_has_the_number_of_the_gpu(
            seat.ids,
            seat.card_node,
            seat.primary_gpu,
            plan.primary->0,
        );
        let i = plan.primary->0 as int;
        assert(seat.ids[i] == seat.primary_gpu.dev_id || seat.card_node == Some(
            DrmNode { dev_id: seat.ids[i] },
        ));
    } else if exists|i: int|
        0 <= i < seat.ids.len() && ((#[trigger] seat.ids[i]) == seat.primary_gpu.dev_id
            || seat.card_node == Some(DrmNode { dev_id: seat.ids[i] })) {
        let i = choose|i: int|
            0 <= i < seat.ids.len() && ((#[trigger] seat.ids[i]) == seat.primary_gpu.dev_id
                || seat.card_node == Some(DrmNode { dev_id: seat.ids[i] }));
        lemma_first_of_number(seat.ids, seat.card_node, seat.primary_gpu, i);
    }
    match seat.primary {
        PrimaryOutcome::NoNode => {},
        PrimaryOutcome::Failed => {},
        PrimaryOutcome::Added => {},
    }
}

/// Where some device has the number of the primary GPU or of its card node, the
/// plan has a primary device.
proof fn lemma_first_of_number(
    ids: Seq<u64>,
    card_node: Option<DrmNode>,
    primary_gpu: DrmNode,
    i: int,
)
    requires
        ids.len() <= usize::MAX,
        0 <= i < ids.len(),
        ids[i] == primary_gpu.dev_id || card_node == Some(DrmNode { dev_id: ids[i] }),
    ensures
        device_plan(ids, card_node, primary_gpu).primary is Some,
    decreases i,
{
    if exists|n: int|
        0 <= n < i && ((#[trigger] ids[n]) == primary_gpu.dev_id || card_node == Some(
            DrmNode { dev_id: ids[n] },
        )) {
        let n = choose|n: int|
            0 <= n < i && ((#[trigger] ids[n]) == primary_gpu.dev_id || card_node == Some(
                DrmNode { dev_id: ids[n] },
            ));
        lemma_first_of_number(ids, card_node, primary_gpu, n);
    } else {
        law_primary_has_the_number_of_the_gpu(ids, card_node, primary_gpu, i as usize);
    }
}

/// The course of it, action by action: the devices as planned, then a renderer,
/// then what depends on it. Each lookup is made for the primary GPU, and explicit
/// synchronisation is announced for the node that was found.
pub proof fn law_bring_up_course(seat: BringUpSeat)
    requires
        forall|n: nat| (#[trigger] (seat.data)(n)).primary_gpu == seat.primary_gpu,
    ensures
        ({
            let gpu = seat.primary_gpu;
            let plan = device_plan(seat.ids, seat.card_node, gpu);
            let first: nat = if plan.primary is Some {
                2
            } else {
                1
            };
            let opening = first + plan.others.len();
            let formats = if (seat.renders)(gpu) {
                opening + 1
            } else {
                opening + 3
            };
            let import_known = match seat.import_node {
                Some(card) => (seat.data)((formats + 3) as nat).backends.contains_key(card.dev_id),
                None => false,
            };
            let no_renderer = BringUpActionView::Finished(Err(InitError::Renderer));
            &&& seat.after(0).1 == BringUpActionView::ListDevices
            &&& plan.primary is Some ==> {
                &&& seat.after(1).1 == BringUpActionView::AddPrimary(plan.primary->0)
                &&& seat.primary == PrimaryOutcome::NoNode ==> seat.after(2).1
                    == BringUpActionView::Finished(Err(InitError::PrimaryNode))
                &&& seat.primary == PrimaryOutcome::Failed ==> seat.after(2).1
                    == BringUpActionView::Finished(Err(InitError::PrimaryDevice))
            }
            &&& (plan.primary is Some ==> seat.primary == PrimaryOutcome::Added) ==> {
                &&& forall|n: nat|
                    n < plan.others.len() ==> (#[trigger] seat.after(first + n)).1
                        == BringUpActionView::AddOther(plan.others[n as int])
                &&& seat.after(opening).1 == BringUpActionView::OpenRenderer(gpu)
                &&& !(seat.renders)(gpu) && !seat.card_fallback ==> seat.after(opening + 1).1
                    == no_renderer
                &&& !(seat.renders)(gpu) && seat.card_fallback ==> {
                    &&& seat.after(opening + 1).1 == BringUpActionView::FindCardNode(gpu)
                    &&& seat.fallback_node is None ==> seat.after(opening + 2).1 == no_renderer
                    &&& seat.fallback_node matches Some(card) ==> {
                        &&& seat.after(opening + 2).1 == BringUpActionView::OpenRenderer(card)
                        &&& !(seat.renders)(card) ==> seat.after(opening + 3).1 == no_renderer
                    }
                }
                &&& (seat.renders)(gpu) || (seat.card_fallback && (seat.fallback_node matches Some(
                    card,
                ) && (seat.renders)(card))) ==> {
                    &&& seat.after(formats).1 == BringUpActionView::AnnounceFormats
                    &&& seat.after(formats + 1).1 == BringUpActionView::AnnounceDmabuf(gpu)
                    &&& !seat.dmabuf ==> seat.after(formats + 2).1 == BringUpActionView::Finished(
                        Err(InitError::DmabufFeedback),
                    )
                    &&& seat.dmabuf ==> {
                        &&& seat.after(formats + 2).1 == BringUpActionView::MakeFeedback
                        &&& seat.after(formats + 3).1 == BringUpActionView::FindImportNode(gpu)
                        &&& !import_known ==> seat.after(formats + 4).1
                            == BringUpActionView::Finished(Ok(()))
                        &&& import_known ==> {
                            &&& seat.after(formats + 4).1 == BringUpActionView::AnnounceSyncobj(
                                seat.import_node->0,
                            )
                            &&& seat.after(formats + 5).1 == BringUpActionView::Finished(Ok(()))
                        }
                    }
                }
            }
        }),
{
    reveal_with_fuel(BringUpSeat::after, 3);
    let gpu = seat.primary_gpu;
    let plan = device_plan(seat.ids, seat.card_node, gpu);
    let first = seat.others_at();
    assert((seat.data)(0).primary_gpu == gpu);
    law_devices_come_first(seat);
    if plan.primary is Some ==> seat.primary == PrimaryOutcome::Added {
        let opening = first + plan.others.len();
        lemma_others(seat, plan.others.len());
        assert(seat.after(opening) == (
            BringUpStageView::OpeningRenderer,
            BringUpActionView::OpenRenderer(gpu),
        ));
        assert((seat.data)(opening).primary_gpu == gpu);
        assert(seat.after(opening + 2) == seat.after((opening + 1) + 1));
        assert(seat.after(opening + 3) == seat.after((opening + 2) + 1));
        let formats = if (seat.renders)(gpu) {
            opening + 1
        } else {
            opening + 3
        };
        if seat.has_renderer() {
            assert(seat.after(formats).0 == BringUpStageView::AnnouncingFormats);
            assert((seat.data)(formats as nat).primary_gpu == gpu);
            assert((seat.data)((formats + 2) as nat).primary_gpu == gpu);
            assert(seat.after(formats + 2) == seat.after((formats + 1) + 1));
            assert(seat.after(formats + 3) == seat.after((formats + 2) + 1));
            assert(seat.after(formats + 4) == seat.after((formats + 3) + 1));
            assert(seat.after(formats + 5) == seat.after((formats + 4) + 1));
        }
    }
}

/// A step notes that a global has been announced, where it has been, and changes
/// nothing else that is known: no device, no surface, no flag.
pub proof fn law_steps_note_globals_only(
    bring_up: BringUpView,
    data: UdevView,
    reply: BringUpReplyView,
)
    requires
        bring_up.awaits(reply),
    ensures
        ({
            let after = bring_up.next(data, reply).1;
            let worked = reply == BringUpReplyView::Outcome(true);
            &&& after.backends == data.backends
            &&& after.primary_gpu == data.primary_gpu
            &&& after.debug_flags == data.debug_flags
            &&& after.disable_10bit_color == data.disable_10bit_color
            &&& after.disable_direct_scanout == data.disable_direct_scanout
            &&& after.dmabuf_state <==> data.dmabuf_state || (bring_up.stage is AnnouncingDmabuf
                && worked)
            &&& after.syncobj_state <==> data.syncobj_state || (bring_up.stage is AnnouncingSyncobj
                && worked)
        }),
{
}

/// How it goes on rests on the primary GPU and on which devices are known, and on
/// nothing else that the backend holds.
pub proof fn law_bring_up_rests_on_little(
    bring_up: BringUpView,
    data: UdevView,
    other: UdevView,
    reply: BringUpReplyView,
)
    requires
        other.primary_gpu == data.primary_gpu,
        forall|dev_id: u64| #[trigger]
            other.backends.contains_key(dev_id) <==> data.backends.contains_key(dev_id),
    ensures
        bring_up.next(other, reply).0 == bring_up.next(data, reply).0,
        bring_up.next(other, reply).2 == bring_up.next(data, reply).2,
{
}

/// Each stage takes the one kind of reply that its action can have, and the last
/// one takes none.
pub proof fn law_bring_up_takes_its_replies(bring_up: BringUpView, reply: BringUpReplyView)
    ensures
        bring_up.awaits(reply) <==> {
            ||| bring_up.stage is ListingDevices && reply is Devices
            ||| bring_up.stage is AddingPrimary && reply is Primary
            ||| (bring_up.stage is FindingCard || bring_up.stage is FindingImportNode)
                && reply is Node
            ||| (bring_up.stage is AddingOther || bring_up.stage is OpeningRenderer
                || bring_up.stage is OpeningCardRenderer || bring_up.stage is AnnouncingDmabuf
                || bring_up.stage is AnnouncingSyncobj) && reply is Outcome
            ||| (bring_up.stage is AnnouncingFormats || bring_up.stage is MakingFeedback)
                && reply is Done
        },
{
}

/// What an action holds is what is seen of it.
pub proof fn law_bring_up_action_is_seen_whole(action: BringUpAction)
    ensures
        action is ListDevices <==> action@ is ListDevices,
        action matches BringUpAction::AddPrimary(position) ==> action@
            == BringUpActionView::AddPrimary(position),
        action matches BringUpAction::AddOther(position) ==> action@
            == BringUpActionView::AddOther(position),
        action matches BringUpAction::OpenRenderer(node) ==> action@
            == BringUpActionView::OpenRenderer(node),
        action matches BringUpAction::FindCardNode(node) ==> action@
            == BringUpActionView::FindCardNode(node),
        action is AnnounceFormats <==> action@ is AnnounceFormats,
        action matches BringUpAction::AnnounceDmabuf(node) ==> action@
            == BringUpActionView::AnnounceDmabuf(node),
        action is MakeFeedback <==> action@ is MakeFeedback,
        action matches BringUpAction::FindImportNode(node) ==> action@
            == BringUpActionView::FindImportNode(node),
        action matches BringUpAction::AnnounceSyncobj(node) ==> action@
            == BringUpActionView::AnnounceSyncobj(node),
        action matches BringUpAction::Finished(result) ==> action@ == BringUpActionView::Finished(
            result,
        ),
{
}

/// What a reply and a stage hold is what is seen of them.
pub proof fn law_bring_up_is_seen_whole(bring_up: BringUp, reply: BringUpReply)
    ensures
        bring_up@.card_fallback == bring_up.card_fallback,
        bring_up.stage is ListingDevices <==> bring_up@.stage is ListingDevices,
        bring_up.stage matches BringUpStage::AddingPrimary { others } ==> bring_up@.stage == (
        BringUpStageView::AddingPrimary { others: others@ }),
        bring_up.stage matches BringUpStage::AddingOther { rest } ==> bring_up@.stage == (
        BringUpStageView::AddingOther { rest: rest@ }),
        bring_up.stage is OpeningRenderer <==> bring_up@.stage is OpeningRenderer,
        bring_up.stage is FindingCard <==> bring_up@.stage is FindingCard,
        bring_up.stage is OpeningCardRenderer <==> bring_up@.stage is OpeningCardRenderer,
        bring_up.stage is AnnouncingFormats <==> bring_up@.stage is AnnouncingFormats,
        bring_up.stage is AnnouncingDmabuf <==> bring_up@.stage is AnnouncingDmabuf,
        bring_up.stage is MakingFeedback <==> bring_up@.stage is MakingFeedback,
        bring_up.stage is FindingImportNode <==> bring_up@.stage is FindingImportNode,
        bring_up.stage is AnnouncingSyncobj <==> bring_up@.stage is AnnouncingSyncobj,
        bring_up.stage is Finished <==> bring_up@.stage is Finished,
        reply is Done <==> reply@ is Done,
        reply matches BringUpReply::Outcome(worked) ==> reply@ == BringUpReplyView::Outcome(worked),
        reply matches BringUpReply::Devices { card_node, ids } ==> reply@ == (
        BringUpReplyView::Devices { card_node, ids: ids@ }),
        reply matches BringUpReply::Primary(outcome) ==> reply@ == BringUpReplyView::Primary(
            outcome,
        ),
        reply matches BringUpReply::Node(node) ==> reply@ == BringUpReplyView::Node(node),
{
}

/// What an outcome decides: a renderer that opened is used and one that did not is
/// replaced by that of the card node where it may be; dmabufs that could not be
/// announced end it; and whether another device came up decides nothing.
pub proof fn law_outcomes_decide(
    card_fallback: bool,
    data: UdevView,
    worked: bool,
    node: DrmNode,
    rest: Seq<usize>,
)
    ensures
        ({
            let after = |stage: BringUpStageView, reply: BringUpReplyView|
                (BringUpView { card_fallback, stage }).next(data, reply).2;
            let outcome = BringUpReplyView::Outcome(worked);
            let other = BringUpReplyView::Outcome(!worked);
            let opened = after(BringUpStageView::OpeningRenderer, outcome);
            let card_opened = after(BringUpStageView::OpeningCardRenderer, outcome);
            let announced = after(BringUpStageView::AnnouncingDmabuf, outcome);
            &&& opened is AnnounceFormats <==> worked
            &&& opened is FindCardNode <==> !worked && card_fallback
            &&& opened is Finished <==> !worked && !card_fallback
            &&& card_opened is AnnounceFormats <==> worked
            &&& card_opened is Finished <==> !worked
            &&& announced is MakeFeedback <==> worked
            &&& announced is Finished <==> !worked
            &&& after(BringUpStageView::AddingOther { rest }, outcome) == after(
                BringUpStageView::AddingOther { rest },
                other,
            )
            &&& after(BringUpStageView::FindingCard, BringUpReplyView::Node(Some(node)))
                == BringUpActionView::OpenRenderer(node)
            &&& after(BringUpStageView::FindingCard, BringUpReplyView::Node(None)) is Finished
            &&& after(BringUpStageView::FindingImportNode, BringUpReplyView::Node(Some(node))) == (
            if data.backends.contains_key(node.dev_id) {
                BringUpActionView::AnnounceSyncobj(node)
            } else {
                BringUpActionView::Finished(Ok(()))
            })
            &&& after(BringUpStageView::FindingImportNode, BringUpReplyView::Node(None))
                == BringUpActionView::Finished(Ok(()))
        }),
{
}

/// What became of the primary device decides: it has to be a DRM node and has to
/// come up, and then the first of the other devices is tried.
pub proof fn law_primary_device_decides(
    card_fallback: bool,
    data: UdevView,
    outcome: PrimaryOutcome,
    others: Seq<usize>,
)
    ensures
        ({
            let next = (BringUpView {
                card_fallback,
                stage: BringUpStageView::AddingPrimary { others },
            }).next(data, BringUpReplyView::Primary(outcome)).2;
            &&& next == BringUpActionView::Finished(Err(InitError::PrimaryNode)) <==> outcome
                == PrimaryOutcome::NoNode
            &&& next == BringUpActionView::Finished(Err(InitError::PrimaryDevice)) <==> outcome
                == PrimaryOutcome::Failed
            &&& next is AddOther || next is OpenRenderer <==> outcome == PrimaryOutcome::Added
            &&& next is AddOther ==> others.len() > 0 && next == BringUpActionView::AddOther(
                others[0],
            )
        }),
{
    match outcome {
        PrimaryOutcome::NoNode => {},
        PrimaryOutcome::Failed => {},
        PrimaryOutcome::Added => {},
    }
}

} // verus!
