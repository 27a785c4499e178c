//! What is done, in which order, when the session becomes active.

use crate::bring_up::{law_bring_up_result, BringUpActionView, BringUpSeat};
use crate::data::{UdevData, UdevView};
use crate::error::InitError;
use crate::lists::{lemma_positions, positions};
use crate::node::DrmNode;
use crate::session::{fresh_positions, is_fresh, lists_stale};
use vstd::prelude::*;

verus! {

broadcast use vstd::std_specs::hash::group_hash_axioms;

/// How far the activation has got.
pub enum Activation {
    ResumingInput,
    BringingUp,
    ListingDevices,
    RemovingStale,
    ListingNodes,
    /// The device that is being brought up, and those that have not been tried
    /// yet.
    AddingNew { position: usize, rest: Vec<usize> },
    Activating,
    Finished,
}

/// What has to be done next.
pub enum ActivationAction {
    /// Let libinput deliver events again.
    ResumeInput,
    /// Bring all devices up for the first time. The primary GPU has to have a
    /// renderer itself: its card node may not stand in for it.
    BringUpDevices { card_fallback: bool },
    /// List the numbers of the devices that are present.
    ListDevices,
    /// Take these devices down.
    RemoveDevices(Vec<DrmNode>),
    /// List the DRM nodes of the devices that are present.
    ListNodes,
    /// Bring up the device at this position of that list.
    AddDevice(usize),
    /// Activate every device and repaint every surface.
    ActivateDevices,
    /// Nothing: the session is active.
    Finished,
}

/// What came of it.
pub enum ActivationReply {
    /// It has been done.
    Done,
    /// Whether it worked.
    Outcome(bool),
    /// Whether the devices have been brought up.
    BroughtUp(Result<(), InitError>),
    /// The numbers of the devices that are present.
    Devices(Vec<u64>),
    /// The node of each device that is present, where it is a DRM node.
    Nodes(Vec<Option<DrmNode>>),
}

/// What an [`Activation`] holds.
pub ghost enum ActivationView {
    ResumingInput,
    BringingUp,
    ListingDevices,
    RemovingStale,
    ListingNodes,
    AddingNew { position: usize, rest: Seq<usize> },
    Activating,
    Finished,
}

/// What an [`ActivationReply`] holds.
pub ghost enum ActivationReplyView {
    Done,
    Outcome(bool),
    BroughtUp(Result<(), InitError>),
    Devices(Seq<u64>),
    Nodes(Seq<Option<DrmNode>>),
}

impl View for Activation {
    type V = ActivationView;

    open spec fn view(&self) -> ActivationView {
        match self {
            Activation::ResumingInput => ActivationView::ResumingInput,
            Activation::BringingUp => ActivationView::BringingUp,
            Activation::ListingDevices => ActivationView::ListingDevices,
            Activation::RemovingStale => ActivationView::RemovingStale,
            Activation::ListingNodes => ActivationView::ListingNodes,
            Activation::AddingNew { position, rest } => ActivationView::AddingNew {
                position: *position,
                rest: rest@,
            },
            Activation::Activating => ActivationView::Activating,
            Activation::Finished => ActivationView::Finished,
        }
    }
}

impl View for ActivationReply {
    type V = ActivationReplyView;

    open spec fn view(&self) -> ActivationReplyView {
        match self {
            ActivationReply::Done => ActivationReplyView::Done,
            ActivationReply::Outcome(worked) => ActivationReplyView::Outcome(*worked),
            ActivationReply::BroughtUp(result) => ActivationReplyView::BroughtUp(*result),
            ActivationReply::Devices(present) => ActivationReplyView::Devices(present@),
            ActivationReply::Nodes(nodes) => ActivationReplyView::Nodes(nodes@),
        }
    }
}

impl UdevView {
    /// Whether no device has been brought up.
    pub open spec fn no_devices(self) -> bool {
        forall|dev_id: u64| !(#[trigger] self.backends.contains_key(dev_id))
    }
}

/// The first of the devices at `positions` is brought up; where there is none
/// left, all devices are activated.
pub open spec fn add_new(positions: Seq<usize>) -> ActivationView {
    if positions.len() == 0 {
        ActivationView::Activating
    } else {
        ActivationView::AddingNew { position: positions[0], rest: positions.drop_first() }
    }
}

impl ActivationView {
    /// Whether `reply` answers the action that was asked for last.
    pub open spec fn awaits(self, reply: ActivationReplyView) -> bool {
        match self {
            ActivationView::BringingUp => reply is BroughtUp,
            ActivationView::ListingDevices => reply is Devices,
            ActivationView::ListingNodes => reply is Nodes,
            ActivationView::AddingNew { .. } => reply is Outcome,
            ActivationView::Finished => false,
            _ => reply is Done,
        }
    }

    /// How the activation goes on. Devices that could not be brought up the
    /// first time are not activated; a new device that could not be brought up
    /// later is passed over.
    pub open spec fn next(self, data: UdevView, reply: ActivationReplyView) -> ActivationView {
        match self {
            ActivationView::ResumingInput => if data.no_devices() {
                ActivationView::BringingUp
            } else {
                ActivationView::ListingDevices
            },
            ActivationView::BringingUp => if reply is BroughtUp && reply->BroughtUp_0 is Ok {
                ActivationView::Activating
            } else {
                ActivationView::Finished
            },
            ActivationView::ListingDevices => ActivationView::RemovingStale,
            ActivationView::RemovingStale => ActivationView::ListingNodes,
            ActivationView::ListingNodes => add_new(fresh_positions(data, reply->Nodes_0)),
            ActivationView::AddingNew { position, rest } => add_new(rest),
            ActivationView::Activating => ActivationView::Finished,
            ActivationView::Finished => ActivationView::Finished,
        }
    }

    /// Whether `action` is what has to be done on entering this stage with
    /// `reply`.
    pub open spec fn asks(
        self,
        data: UdevView,
        reply: ActivationReplyView,
        action: ActivationAction,
    ) -> bool {
        match self {
            ActivationView::ResumingInput => action is ResumeInput,
            ActivationView::BringingUp => action is BringUpDevices && !action->card_fallback,
            ActivationView::ListingDevices => action is ListDevices,
            ActivationView::RemovingStale => action is RemoveDevices && lists_stale(
                action->RemoveDevices_0@,
                data,
                reply->Devices_0,
            ),
            ActivationView::ListingNodes => action is ListNodes,
            ActivationView::AddingNew { position, .. } => action == ActivationAction::AddDevice(
                position,
            ),
            ActivationView::Activating => action is ActivateDevices,
            ActivationView::Finished => action is Finished,
        }
    }
}

impl Activation {
    /// Begins the activation.
    pub fn start() -> (started: (Activation, ActivationAction))
        ensures
            started.0@ == ActivationView::ResumingInput,
            started.1 is ResumeInput,
    {
        (Activation::ResumingInput, ActivationAction::ResumeInput)
    }

    /// Whether `reply` answers the action that was asked for last.
    pub fn awaits(&self, reply: &ActivationReply) -> (fits: bool)
        ensures
            fits == self@.awaits(reply@),
    {
        match self {
            Activation::BringingUp => matches!(reply, ActivationReply::BroughtUp(_)),
            Activation::ListingDevices => matches!(reply, ActivationReply::Devices(_)),
            Activation::ListingNodes => matches!(reply, ActivationReply::Nodes(_)),
            Activation::AddingNew { .. } => matches!(reply, ActivationReply::Outcome(_)),
            Activation::Finished => false,
            _ => matches!(reply, ActivationReply::Done),
        }
    }

    fn add_new(positions: Vec<usize>) -> (next: (Activation, ActivationAction))
        ensures
            next.0@ == add_new(positions@),
            positions.len() == 0 ==> next.1 is ActivateDevices,
            positions.len() > 0 ==> next.1 == ActivationAction::AddDevice(positions[0]),
    {
        if positions.len() == 0 {
            (Activation::Activating, ActivationAction::ActivateDevices)
        } else {
            let mut rest: Vec<usize> = positions;
            let position: usize = rest.remove(0);
            assert(rest@ =~= positions@.drop_first());
            (Activation::AddingNew { position, rest }, ActivationAction::AddDevice(position))
        }
    }

    /// Goes on with the activation once an action has been carried out.
    pub fn step(
        self,
        data: &UdevData,
        reply: ActivationReply,
    ) -> (stepped: (Activation, ActivationAction))
        requires
            self@.awaits(reply@),
        ensures
            stepped.0@ == self@.next(data@, reply@),
            stepped.0@.asks(data@, reply@, stepped.1),
            self is ResumingInput ==> {
                &&& stepped.1 is BringUpDevices <==> data.backends@.dom() == Set::<u64>::empty()
                &&& stepped.1 is ListDevices <==> data.backends@.dom() != Set::<u64>::empty()
            },
    {
        match (self, reply) {
            (Activation::ResumingInput, _) => {
                proof {
                    assert(data.backends@.is_empty() ==> data@.no_devices());
                    if data@.no_devices() {
                        assert forall|k: u64| !data.backends@.dom().contains(k) by {
                            assert(!data@.backends.contains_key(k));
                        }
                        assert(data.backends@.dom() =~= Set::empty());
                    }
                }
                if data.backends.is_empty() {
                    (
                        Activation::BringingUp,
                        ActivationAction::BringUpDevices { card_fallback: false },
                    )
                } else {
                    (Activation::ListingDevices, ActivationAction::ListDevices)
                }
            },
            (Activation::BringingUp, ActivationReply::BroughtUp(Ok(_))) => (
                Activation::Activating,
                ActivationAction::ActivateDevices,
            ),
            (Activation::ListingDevices, ActivationReply::Devices(present)) => (
                Activation::RemovingStale,
                ActivationAction::RemoveDevices(data.stale_devices(&present)),
            ),
            (Activation::RemovingStale, _) => (
                Activation::ListingNodes,
                ActivationAction::ListNodes,
            ),
            (Activation::ListingNodes, ActivationReply::Nodes(nodes)) => {
                Self::add_new(data.new_devices(&nodes))
            },
            (Activation::AddingNew { rest, .. }, _) => Self::add_new(rest),
            _ => (Activation::Finished, ActivationAction::Finished),
        }
    }
}

/// A seat on which the session becomes active: what each action comes to there,
/// and what is known of the devices when it has been carried out.
pub ghost struct ActivationSeat {
    pub brought_up: Result<(), InitError>,
    pub present: Seq<u64>,
    pub nodes: Seq<Option<DrmNode>>,
    /// Whether the device at a position comes up.
    pub comes_up: spec_fn(usize) -> bool,
    pub data: spec_fn(nat) -> UdevView,
}

impl ActivationSeat {
    /// What the action of a stage comes to.
    pub open spec fn answer(self, stage: ActivationView) -> ActivationReplyView {
        match stage {
            ActivationView::BringingUp => ActivationReplyView::BroughtUp(self.brought_up),
            ActivationView::ListingDevices => ActivationReplyView::Devices(self.present),
            ActivationView::ListingNodes => ActivationReplyView::Nodes(self.nodes),
            ActivationView::AddingNew { position, .. } => ActivationReplyView::Outcome(
                (self.comes_up)(position),
            ),
            _ => ActivationReplyView::Done,
        }
    }

    /// How far the activation has got after `steps` actions.
    pub open spec fn after(self, steps: nat) -> ActivationView
        decreases steps,
    {
        if steps == 0 {
            ActivationView::ResumingInput
        } else {
            let earlier = (steps - 1) as nat;
            self.after(earlier).next((self.data)(earlier), self.answer(self.after(earlier)))
        }
    }

    /// The positions of the devices that came, as they are known once the
    /// devices that are gone have been taken down.
    pub open spec fn fresh(self) -> Seq<usize> {
        fresh_positions((self.data)(3), self.nodes)
    }
}

/// New devices are tried one after the other, whatever becomes of each.
proof fn lemma_new_devices(seat: ActivationSeat, tried: nat)
    requires
        !(seat.data)(0).no_devices(),
        tried <= seat.fresh().len(),
    ensures
        seat.after(4 + tried) == add_new(seat.fresh().skip(tried as int)),
    decreases tried,
{
    if tried == 0 {
        reveal_with_fuel(ActivationSeat::after, 5);
        assert(seat.fresh().skip(0) =~= seat.fresh());
    } else {
        let earlier = (tried - 1) as nat;
        lemma_new_devices(seat, earlier);
        assert(seat.fresh().skip(earlier as int).drop_first() =~= seat.fresh().skip(tried as int));
        assert(seat.after((4 + earlier) + 1) == seat.after(4 + tried));
    }
}

/// The first time that the session becomes active, when no device has been
/// brought up, all devices are brought up, and activated if that went well. At
/// any other time the devices that are gone are taken down, then each of those
/// that came is brought up, and then all of them are activated. One that does
/// not come up keeps neither those after it from being tried nor any device from
/// being activated.
pub proof fn law_activation_order(seat: ActivationSeat)
    ensures
        seat.after(0) == ActivationView::ResumingInput,
        (seat.data)(0).backends.dom() == Set::<u64>::empty() ==> {
            &&& seat.after(1) == ActivationView::BringingUp
            &&& seat.brought_up is Err ==> seat.after(2) == ActivationView::Finished
            &&& seat.brought_up is Ok ==> {
                &&& seat.after(2) == ActivationView::Activating
                &&& seat.after(3) == ActivationView::Finished
            }
        },
        (seat.data)(0).backends.dom() != Set::<u64>::empty() ==> {
            let fresh = fresh_positions((seat.data)(3), seat.nodes);
            &&& seat.after(1) == ActivationView::ListingDevices
            &&& seat.after(2) == ActivationView::RemovingStale
            &&& seat.after(3) == ActivationView::ListingNodes
            &&& forall|n: nat|
                n < fresh.len() ==> (#[trigger] seat.after(4 + n)) is AddingNew && seat.after(
                    4 + n,
                )->position == fresh[n as int]
            &&& seat.after(4 + fresh.len()) == ActivationView::Activating
            &&& seat.after(5 + fresh.len()) == ActivationView::Finished
        },
{
    reveal_with_fuel(ActivationSeat::after, 4);
    law_first_time_is_without_devices((seat.data)(0), (seat.data)(0), ActivationReplyView::Done);
    if !(seat.data)(0).no_devices() {
        let fresh = seat.fresh();
        assert forall|n: nat| n < fresh.len() implies (#[trigger] seat.after(4 + n)) is AddingNew
            && seat.after(4 + n)->position == fresh[n as int] by {
            lemma_new_devices(seat, n);
            assert(fresh.skip(n as int)[0] == fresh[n as int]);
        }
        lemma_new_devices(seat, fresh.len());
        assert(seat.after((4 + fresh.len()) + 1) == seat.after(5 + fresh.len()));
    }
}

/// The first time that the session becomes active, its devices are activated
/// exactly where bringing them up succeeds, for which the primary GPU has to
/// have a renderer itself.
pub proof fn law_first_activation(seat: ActivationSeat, devices: BringUpSeat)
    requires
        (seat.data)(0).backends.dom() == Set::<u64>::empty(),
        devices.keeps_primary_gpu(),
        !devices.card_fallback,
        devices.after(devices.actions()).1 == BringUpActionView::Finished(seat.brought_up),
    ensures
        seat.brought_up == devices.result(),
        seat.after(2) == (if devices.result() is Ok {
            ActivationView::Activating
        } else {
            ActivationView::Finished
        }),
        devices.result() is Ok ==> (devices.renders)(devices.primary_gpu),
{
    law_bring_up_result(devices);
    law_activation_order(seat);
}

/// The action of a stage is always one whose outcome the next step takes.
pub proof fn law_outcomes_are_awaited(seat: ActivationSeat, steps: nat)
    ensures
        seat.after(steps) == ActivationView::Finished || seat.after(steps).awaits(
            seat.answer(seat.after(steps)),
        ),
{
}

/// The numbers of the devices of `nodes` that have not been brought up.
pub open spec fn fresh_numbers(data: UdevView, nodes: Seq<Option<DrmNode>>) -> Set<u64> {
    Set::new(
        |dev_id: u64|
            exists|n: int|
                0 <= n < fresh_positions(data, nodes).len() && nodes[(
                #[trigger] fresh_positions(data, nodes)[n]) as int]->0.dev_id == dev_id,
    )
}

/// Once the devices that are gone have been taken down and those that came have
/// been tried, every device that is known is present, and no device that was
/// known and is present has been lost, however many of the new ones came up.
/// Where all of them did, every DRM node that is present is known.
pub proof fn law_resume_reconciles(
    before: UdevView,
    present: Seq<u64>,
    nodes: Seq<Option<DrmNode>>,
    stale: Seq<DrmNode>,
    between: UdevView,
    after: UdevView,
)
    requires
        nodes.len() <= usize::MAX,
        // The node of a device has the number of the device.
        nodes.len() == present.len(),
        forall|i: int|
            0 <= i < nodes.len() && (#[trigger] nodes[i]) is Some ==> nodes[i]->0.dev_id
                == present[i],
        // The devices that are gone are taken down.
        lists_stale(stale, before, present),
        forall|dev_id: u64| #[trigger]
            between.backends.contains_key(dev_id) <==> before.backends.contains_key(dev_id)
                && !stale.contains(DrmNode { dev_id }),
        // Of those that came, some are brought up.
        forall|dev_id: u64| #[trigger]
            between.backends.contains_key(dev_id) ==> after.backends.contains_key(dev_id),
        forall|dev_id: u64| #[trigger]
            after.backends.contains_key(dev_id) ==> between.backends.contains_key(dev_id)
                || fresh_numbers(between, nodes).contains(dev_id),
    ensures
        forall|dev_id: u64| #[trigger]
            after.backends.contains_key(dev_id) ==> present.contains(dev_id),
        (forall|dev_id: u64| #[trigger]
            fresh_numbers(between, nodes).contains(dev_id) ==> after.backends.contains_key(dev_id))
            ==> forall|i: int|
            0 <= i < nodes.len() && (#[trigger] nodes[i]) is Some ==> after.backends.contains_key(
                nodes[i]->0.dev_id,
            ),
        forall|dev_id: u64| #[trigger]
            before.backends.contains_key(dev_id) && present.contains(dev_id)
                ==> after.backends.contains_key(dev_id),
        forall|dev_id: u64| #[trigger]
            fresh_numbers(between, nodes).contains(dev_id) ==> !between.backends.contains_key(
                dev_id,
            ),
{
    let keep = |i: int| is_fresh(between, nodes[i]);
    let fresh = fresh_positions(between, nodes);
    lemma_positions(nodes.len(), keep);
    assert(fresh == positions(nodes.len(), keep));
    assert forall|dev_id: u64| #[trigger] fresh_numbers(between, nodes).contains(dev_id) implies
        present.contains(dev_id) && !between.backends.contains_key(dev_id) by {
        let n = choose|n: int|
            0 <= n < fresh.len() && nodes[(#[trigger] fresh[n]) as int]->0.dev_id == dev_id;
        assert(fresh.contains(fresh[n]));
        assert(keep(fresh[n] as int));
        assert(present[fresh[n] as int] == dev_id);
    }
    assert forall|dev_id: u64| #[trigger] after.backends.contains_key(dev_id) implies
        present.contains(dev_id) by {
        if between.backends.contains_key(dev_id) {
            assert(!stale.contains(DrmNode { dev_id }));
        } else {
            assert(fresh_numbers(between, nodes).contains(dev_id));
        }
    }
    assert forall|i: int|
        0 <= i < nodes.len() && (#[trigger] nodes[i]) is Some && !between.backends.contains_key(
            nodes[i]->0.dev_id,
        ) implies fresh_numbers(between, nodes).contains(nodes[i]->0.dev_id) by {
        assert(keep(i));
        assert(fresh.contains(i as usize));
        let n = choose|n: int| 0 <= n < fresh.len() && fresh[n] == i as usize;
        assert(nodes[fresh[n] as int]->0.dev_id == nodes[i]->0.dev_id);
    }
    assert forall|dev_id: u64| #[trigger]
        before.backends.contains_key(dev_id) && present.contains(dev_id) implies
        after.backends.contains_key(dev_id) by {
        assert(!stale.contains(DrmNode { dev_id }));
        assert(between.backends.contains_key(dev_id));
    }
}

/// Once input has been resumed, devices are brought up for the first time exactly
/// where none is known: where a single one is, those present are listed. Nothing
/// else that the backend holds has a say in it.
pub proof fn law_first_time_is_without_devices(
    data: UdevView,
    other: UdevView,
    reply: ActivationReplyView,
)
    ensures
        ActivationView::ResumingInput.next(data, reply) == ActivationView::BringingUp
            <==> data.backends.dom() == Set::<u64>::empty(),
        forall|dev_id: u64| #[trigger]
            data.backends.dom().contains(dev_id) ==> ActivationView::ResumingInput.next(data, reply)
                == ActivationView::ListingDevices,
        other.backends.dom() == data.backends.dom() ==> ActivationView::ResumingInput.next(
            other,
            reply,
        ) == ActivationView::ResumingInput.next(data, reply),
        data.no_devices() <==> data.backends.dom() == Set::<u64>::empty(),
{
    if data.no_devices() {
        assert forall|dev_id: u64| !(#[trigger] data.backends.dom().contains(dev_id)) by {
            assert(!data.backends.contains_key(dev_id));
        }
        assert(data.backends.dom() =~= Set::empty());
    } else {
        let dev_id = choose|dev_id: u64| #[trigger] data.backends.contains_key(dev_id);
        assert(data.backends.dom().contains(dev_id));
    }
    if other.backends.dom() == data.backends.dom() {
        assert(forall|dev_id: u64|
            #![auto]
            other.backends.contains_key(dev_id) == data.backends.contains_key(dev_id));
    }
}

/// Each stage asks for one thing. The devices that are taken down are the known
/// ones that are not present, and the device that is brought up is the one the
/// stage is at. On the first activation the card node of the primary GPU may not
/// stand in as the renderer.
pub proof fn law_stages_ask_for_their_action(
    stage: ActivationView,
    data: UdevView,
    present: Seq<u64>,
    action: ActivationAction,
)
    requires
        stage.asks(data, ActivationReplyView::Devices(present), action),
    ensures
        stage is ResumingInput <==> action is ResumeInput,
        stage is BringingUp <==> action is BringUpDevices,
        stage is ListingDevices <==> action is ListDevices,
        stage is RemovingStale <==> action is RemoveDevices,
        stage is ListingNodes <==> action is ListNodes,
        stage is AddingNew <==> action is AddDevice,
        stage is Activating <==> action is ActivateDevices,
        stage is Finished <==> action is Finished,
        action is BringUpDevices ==> action == (ActivationAction::BringUpDevices {
            card_fallback: false,
        }),
        action is AddDevice ==> action == ActivationAction::AddDevice(stage->position),
        action is RemoveDevices ==> forall|node: DrmNode| #[trigger]
            action->RemoveDevices_0@.contains(node) <==> data.backends.contains_key(node.dev_id)
                && !present.contains(node.dev_id),
{
}

/// What a stage asks for rests on the reply only where devices are taken down.
pub proof fn law_other_stages_do_not_look_back(
    stage: ActivationView,
    data: UdevView,
    reply: ActivationReplyView,
    present: Seq<u64>,
    action: ActivationAction,
)
    requires
        stage !is RemovingStale,
    ensures
        stage.asks(data, reply, action) <==> stage.asks(
            data,
            ActivationReplyView::Devices(present),
            action,
        ),
{
}

/// Each stage takes the one kind of reply that its action can have, and the last
/// one takes none.
pub proof fn law_activation_takes_its_replies(stage: ActivationView, reply: ActivationReplyView)
    ensures
        stage.awaits(reply) <==> {
            ||| stage is BringingUp && reply is BroughtUp
            ||| stage is ListingDevices && reply is Devices
            ||| stage is ListingNodes && reply is Nodes
            ||| stage is AddingNew && reply is Outcome
            ||| (stage is ResumingInput || stage is RemovingStale || stage is Activating)
                && reply is Done
        },
{
}

/// What an activation and a reply hold is what is seen of them.
pub proof fn law_activation_is_seen_whole(activation: Activation, reply: ActivationReply)
    ensures
        activation is ResumingInput <==> activation@ is ResumingInput,
        activation is BringingUp <==> activation@ is BringingUp,
        activation is ListingDevices <==> activation@ is ListingDevices,
        activation is RemovingStale <==> activation@ is RemovingStale,
        activation is ListingNodes <==> activation@ is ListingNodes,
        activation is Activating <==> activation@ is Activating,
        activation is Finished <==> activation@ is Finished,
        activation matches Activation::AddingNew { position, rest } ==> activation@ == (
        ActivationView::AddingNew { position, rest: rest@ }),
        reply is Done <==> reply@ is Done,
        reply matches ActivationReply::Outcome(worked) ==> reply@ == ActivationReplyView::Outcome(
            worked,
        ),
        reply matches ActivationReply::BroughtUp(result) ==> reply@
            == ActivationReplyView::BroughtUp(result),
        reply matches ActivationReply::Devices(present) ==> reply@ == ActivationReplyView::Devices(
            present@,
        ),
        reply matches ActivationReply::Nodes(nodes) ==> reply@ == ActivationReplyView::Nodes(
            nodes@,
        ),
{
}

/// What an outcome decides: devices that were brought up the first time are
/// activated, and nothing is where they could not be; whether a new device came up
/// later decides nothing.
pub proof fn law_activation_outcomes_decide(
    data: UdevView,
    result: Result<(), InitError>,
    worked: bool,
    position: usize,
    rest: Seq<usize>,
)
    ensures
        ({
            let adding = ActivationView::AddingNew { position, rest };
            let next = ActivationView::BringingUp.next(
                data,
                ActivationReplyView::BroughtUp(result),
            );
            &&& next is Activating <==> result is Ok
            &&& next is Finished <==> result is Err
            &&& adding.next(data, ActivationReplyView::Outcome(worked)) == adding.next(
                data,
                ActivationReplyView::Outcome(!worked),
            )
            &&& rest.len() == 0 ==> adding.next(data, ActivationReplyView::Outcome(worked))
                is Activating
            &&& rest.len() > 0 ==> adding.next(data, ActivationReplyView::Outcome(worked)) == (
            ActivationView::AddingNew { position: rest[0], rest: rest.drop_first() })
        }),
{
}

} // verus!
