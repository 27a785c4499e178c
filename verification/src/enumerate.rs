//! In which order the devices of a seat are brought up.
//!
//! The primary device comes first, so that a device that only has displays can
//! fall back on it for rendering.

use crate::lists::{lemma_positions, lemma_positions_step, positions};
use crate::node::DrmNode;
use vstd::prelude::*;

verus! {

/// Positions in a device list, in the order in which to bring the devices up.
pub struct DevicePlan {
    /// The primary device, where the list has one.
    pub primary: Option<usize>,
    /// The other devices.
    pub others: Vec<usize>,
}

/// What a [`DevicePlan`] holds.
#[verifier::ext_equal]
pub ghost struct DevicePlanView {
    pub primary: Option<usize>,
    pub others: Seq<usize>,
}

impl View for DevicePlan {
    type V = DevicePlanView;

    open spec fn view(&self) -> DevicePlanView {
        DevicePlanView { primary: self.primary, others: self.others@ }
    }
}

/// Whether the device number is that of the primary GPU or of its card node.
pub open spec fn is_primary(
    dev_id: u64,
    card_node: Option<DrmNode>,
    primary_gpu: DrmNode,
) -> bool {
    dev_id == primary_gpu.dev_id || (card_node is Some && dev_id == card_node->0.dev_id)
}

/// Whether the device at `position` is the first primary one of the list.
pub open spec fn is_first_primary(
    ids: Seq<u64>,
    card_node: Option<DrmNode>,
    primary_gpu: DrmNode,
    position: usize,
) -> bool {
    &&& position < ids.len()
    &&& is_primary(ids[position as int], card_node, primary_gpu)
    &&& forall|i: int|
        0 <= i < position ==> !is_primary(#[trigger] ids[i], card_node, primary_gpu)
}

/// Where the first primary device stands in the list.
pub open spec fn primary_position(
    ids: Seq<u64>,
    card_node: Option<DrmNode>,
    primary_gpu: DrmNode,
) -> Option<usize> {
    if exists|i: usize| is_first_primary(ids, card_node, primary_gpu, i) {
        Some(choose|i: usize| is_first_primary(ids, card_node, primary_gpu, i))
    } else {
        None
    }
}

/// Whether the device at `i` is not the device at the primary position.
pub open spec fn is_other(ids: Seq<u64>, primary: Option<usize>, i: int) -> bool {
    primary is None || ids[i] != ids[primary->0 as int]
}

/// The order for a list of device numbers: the first device that is primary,
/// then every device with another number, in the order of the list.
pub open spec fn device_plan(
    ids: Seq<u64>,
    card_node: Option<DrmNode>,
    primary_gpu: DrmNode,
) -> DevicePlanView {
    let primary = primary_position(ids, card_node, primary_gpu);
    DevicePlanView { primary, others: positions(ids.len(), |i: int| is_other(ids, primary, i)) }
}

impl DevicePlanView {
    /// All positions, in the order in which the devices are tried.
    pub open spec fn order(self) -> Seq<usize> {
        match self.primary {
            Some(first) => seq![first] + self.others,
            None => self.others,
        }
    }
}

/// Finds the primary device of a list of device numbers.
fn find_primary(ids: &Vec<u64>, card_node: Option<DrmNode>, primary_gpu: DrmNode) -> (found: Option<
    usize,
>)
    ensures
        found == primary_position(ids@, card_node, primary_gpu),
{
    let mut i: usize = 0;
    while i < ids.len()
        invariant
            i <= ids.len(),
            forall|n: int| 0 <= n < i ==> !is_primary(#[trigger] ids@[n], card_node, primary_gpu),
        decreases ids.len() - i,
    {
        let is_card: bool = match card_node {
            Some(card) => ids[i] == card.dev_id,
            None => false,
        };
        if is_card || ids[i] == primary_gpu.dev_id {
            assert(is_first_primary(ids@, card_node, primary_gpu, i));
            assert forall|n: usize| is_first_primary(ids@, card_node, primary_gpu, n) implies n
                == i by {
                assert(is_primary(ids@[n as int], card_node, primary_gpu));
                assert(is_primary(ids@[i as int], card_node, primary_gpu));
            }
            return Some(i);
        }
        i = i + 1;
    }
    assert forall|n: usize| !is_first_primary(ids@, card_node, primary_gpu, n) by {
        if n < ids@.len() {
            assert(!is_primary(ids@[n as int], card_node, primary_gpu));
        }
    }
    None
}

/// Plans in which order to bring devices up. `ids` are the device numbers that
/// udev lists, and `card_node` is the card node of the primary GPU, where it
/// has one.
pub fn plan_devices(ids: &Vec<u64>, card_node: Option<DrmNode>, primary_gpu: DrmNode) -> (plan:
    DevicePlan)
    ensures
        plan@ == device_plan(ids@, card_node, primary_gpu),
        match plan.primary {
            Some(position) => position < ids@.len() && (ids@[position as int] == primary_gpu.dev_id
                || card_node == Some(DrmNode { dev_id: ids@[position as int] })),
            None => forall|i: int|
                0 <= i < ids@.len() ==> (#[trigger] ids@[i]) != primary_gpu.dev_id && card_node
                    != Some(DrmNode { dev_id: ids@[i] }),
        },
{
    let primary: Option<usize> = find_primary(ids, card_node, primary_gpu);
    let ghost keep = |i: int| is_other(ids@, primary, i);
    let mut others: Vec<usize> = Vec::new();
    let mut i: usize = 0;
    proof {
        lemma_positions_step(0, keep);
    }
    while i < ids.len()
        invariant
            i <= ids.len(),
            primary is Some ==> primary->0 < ids.len(),
            keep == (|i: int| is_other(ids@, primary, i)),
            others@ == positions(i as nat, keep),
        decreases ids.len() - i,
    {
        let same: bool = match primary {
            Some(position) => ids[i] == ids[position],
            None => false,
        };
        if !same {
            others.push(i);
        }
        proof {
            lemma_positions_step(i as nat, keep);
        }
        i = i + 1;
    }
    proof {
        assert(ids@.len() == ids.len());
        if primary is Some {
            law_primary_has_the_number_of_the_gpu(ids@, card_node, primary_gpu, primary->0);
        } else {
            assert forall|n: int| 0 <= n < ids@.len() implies (#[trigger] ids@[n])
                != primary_gpu.dev_id && card_node != Some(DrmNode { dev_id: ids@[n] }) by {
                if is_primary(ids@[n], card_node, primary_gpu) {
                    lemma_first_primary_exists(ids@, card_node, primary_gpu, n);
                }
            }
        }
    }
    DevicePlan { primary, others }
}

/// The primary device is tried before every other device.
pub proof fn law_primary_is_first(
    ids: Seq<u64>,
    card_node: Option<DrmNode>,
    primary_gpu: DrmNode,
)
    requires
        ids.len() <= usize::MAX,
        exists|i: int|
            0 <= i < ids.len() && is_primary(#[trigger] ids[i], card_node, primary_gpu),
    ensures
        ({
            let order = device_plan(ids, card_node, primary_gpu).order();
            &&& order.len() > 0
            &&& order[0] < ids.len()
            &&& is_primary(ids[order[0] as int], card_node, primary_gpu)
        }),
{
    let i = choose|i: int|
        0 <= i < ids.len() && is_primary(#[trigger] ids[i], card_node, primary_gpu);
    lemma_first_primary_exists(ids, card_node, primary_gpu, i);
}

proof fn lemma_first_primary_exists(
    ids: Seq<u64>,
    card_node: Option<DrmNode>,
    primary_gpu: DrmNode,
    i: int,
)
    requires
        ids.len() <= usize::MAX,
        0 <= i < ids.len(),
        is_primary(ids[i], card_node, primary_gpu),
    ensures
        exists|n: usize| is_first_primary(ids, card_node, primary_gpu, n),
    decreases i,
{
    if exists|n: int| 0 <= n < i && is_primary(#[trigger] ids[n], card_node, primary_gpu) {
        let n = choose|n: int|
            0 <= n < i && is_primary(#[trigger] ids[n], card_node, primary_gpu);
        lemma_first_primary_exists(ids, card_node, primary_gpu, n);
    } else {
        assert(is_first_primary(ids, card_node, primary_gpu, i as usize));
    }
}

/// Whether a device with this number is among those tried.
pub open spec fn is_tried(ids: Seq<u64>, order: Seq<usize>, dev_id: u64) -> bool {
    exists|n: int| 0 <= n < order.len() && ids[(#[trigger] order[n]) as int] == dev_id
}

/// Every device number of the list is tried, and no device of the list is tried
/// twice.
pub proof fn law_every_device_is_tried(
    ids: Seq<u64>,
    card_node: Option<DrmNode>,
    primary_gpu: DrmNode,
)
    requires
        ids.len() <= usize::MAX,
    ensures
        ({
            let order = device_plan(ids, card_node, primary_gpu).order();
            &&& order.no_duplicates()
            &&& forall|n: int| 0 <= n < order.len() ==> (#[trigger] order[n]) < ids.len()
            &&& forall|i: int| 0 <= i < ids.len() ==> is_tried(ids, order, #[trigger] ids[i])
        }),
{
    let plan = device_plan(ids, card_node, primary_gpu);
    let keep = |i: int| is_other(ids, plan.primary, i);
    let order = plan.order();
    lemma_positions(ids.len(), keep);
    if plan.primary is Some {
        assert(is_first_primary(ids, card_node, primary_gpu, plan.primary->0));
        assert(!plan.others.contains(plan.primary->0));
    }
    assert forall|a: int, b: int| 0 <= a < b < order.len() implies order[a] != order[b] by {
        if plan.primary is Some && a == 0 {
            assert(plan.others.contains(plan.others[b - 1]));
        }
    }
    assert(order.no_duplicates());
    assert forall|n: int| 0 <= n < order.len() implies (#[trigger] order[n]) < ids.len() by {
        if plan.primary is Some {
            if n > 0 {
                assert(plan.others.contains(plan.others[n - 1]));
            }
        } else {
            assert(plan.others.contains(plan.others[n]));
        }
    }
    assert forall|i: int| 0 <= i < ids.len() implies is_tried(ids, order, #[trigger] ids[i]) by {
        if keep(i) {
            assert(plan.others.contains(i as usize));
            let n = choose|n: int| 0 <= n < plan.others.len() && plan.others[n] == i as usize;
            let shifted = if plan.primary is Some {
                n + 1
            } else {
                n
            };
            assert(order[shifted] == i as usize);
        } else {
            assert(order[0] == plan.primary->0);
        }
    }
}

/// The primary device of a plan is the first of the list whose number is that of
/// the primary GPU or that of its card node. A device with neither number is
/// never the primary one.
pub proof fn law_primary_has_the_number_of_the_gpu(
    ids: Seq<u64>,
    card_node: Option<DrmNode>,
    primary_gpu: DrmNode,
    position: usize,
)
    requires
        ids.len() <= usize::MAX,
    ensures
        device_plan(ids, card_node, primary_gpu).primary == Some(position) <==> {
            &&& position < ids.len()
            &&& ids[position as int] == primary_gpu.dev_id || card_node == Some(
                DrmNode { dev_id: ids[position as int] },
            )
            &&& forall|i: int|
                0 <= i < position ==> (#[trigger] ids[i]) != primary_gpu.dev_id && card_node
                    != Some(DrmNode { dev_id: ids[i] })
        },
{
    let primary = device_plan(ids, card_node, primary_gpu).primary;
    if position < ids.len() && is_primary(ids[position as int], card_node, primary_gpu) {
        lemma_first_primary_exists(ids, card_node, primary_gpu, position as int);
    }
    if primary is Some {
        let found = primary->0;
        assert(is_first_primary(ids, card_node, primary_gpu, found));
        assert(is_primary(ids[found as int], card_node, primary_gpu));
        if position < ids.len() && position < found {
            assert(!is_primary(ids[position as int], card_node, primary_gpu));
        }
        if position == found {
            assert forall|i: int| 0 <= i < position implies (#[trigger] ids[i])
                != primary_gpu.dev_id && card_node != Some(DrmNode { dev_id: ids[i] }) by {
                assert(!is_primary(ids[i], card_node, primary_gpu));
            }
        }
    }
}

/// Beside the primary device a plan holds every device with another number, each
/// once and in the order of the list. So a device whose number is neither that of
/// the primary GPU nor that of its card node is always among them.
pub proof fn law_others_are_the_rest(
    ids: Seq<u64>,
    card_node: Option<DrmNode>,
    primary_gpu: DrmNode,
    position: usize,
)
    requires
        ids.len() <= usize::MAX,
    ensures
        ({
            let plan = device_plan(ids, card_node, primary_gpu);
            &&& plan.others.contains(position) <==> position < ids.len() && (plan.primary is Some
                ==> ids[position as int] != ids[plan.primary->0 as int])
            &&& position < ids.len() && ids[position as int] != primary_gpu.dev_id && card_node
                != Some(DrmNode { dev_id: ids[position as int] }) ==> plan.others.contains(position)
            &&& forall|a: int, b: int|
                0 <= a < b < plan.others.len() ==> (#[trigger] plan.others[a]) < (
                #[trigger] plan.others[b])
        }),
{
    let plan = device_plan(ids, card_node, primary_gpu);
    let keep = |i: int| is_other(ids, plan.primary, i);
    lemma_positions(ids.len(), keep);
    assert(plan.others == positions(ids.len(), keep));
    assert(plan.others.contains(position) <==> position < ids.len() && keep(position as int));
    if plan.primary is Some {
        law_primary_has_the_number_of_the_gpu(ids, card_node, primary_gpu, plan.primary->0);
    }
}

/// What a plan holds is what is seen of it.
pub proof fn law_plan_is_seen_whole(plan: DevicePlan)
    ensures
        plan@.primary == plan.primary,
        plan@.others == plan.others@,
{
}

} // verus!
