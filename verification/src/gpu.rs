//! Choosing the primary GPU.
//!
//! A path named by the user is used as it is, with nothing to fall back on.
//! Otherwise the render node of the GPU that udev reports as the primary one is
//! used, and where that cannot be had, the first GPU of the seat that opens.
//!
//! Devices are opened outside of the library, so the choice is made step by
//! step: [`GpuSelection::start`] and [`GpuSelection::step`] say what to look up
//! next, and the answer is handed to the next step.

use crate::error::InitError;
use crate::node::DrmNode;
use std::path::PathBuf;
use vstd::prelude::*;

verus! {

/// What has to be looked up next.
pub enum GpuQuery {
    /// The node at the path that the user configured.
    OpenConfigured(PathBuf),
    /// The path of the GPU that the system booted with.
    FindPrimary,
    /// The node at the path of that GPU.
    OpenPrimary(PathBuf),
    /// The render node that belongs to a node.
    RenderNode(DrmNode),
    /// The paths of all GPUs of the seat.
    ListAll,
    /// The node at the path of one of those GPUs.
    OpenAny(PathBuf),
    /// Nothing: the choice has been made.
    Finished(Result<DrmNode, InitError>),
}

/// What a lookup found.
pub enum GpuReply {
    /// The node, or `None` where it could not be opened.
    Node(Option<DrmNode>),
    /// The path of the primary GPU if there is one, or the failure to ask.
    Primary(Result<Option<PathBuf>, ()>),
    /// The paths of all GPUs, or the failure to ask.
    All(Result<Vec<PathBuf>, ()>),
}

/// How far the choice has got.
pub enum GpuSelection {
    Configured,
    FindingPrimary,
    OpeningPrimary,
    FindingRender,
    ListingAll,
    /// The paths that have not been tried yet.
    OpeningAny(Vec<PathBuf>),
    Finished,
}

/// What a [`GpuReply`] holds.
pub ghost enum GpuReplyView {
    Node(Option<DrmNode>),
    Primary(Result<Option<PathBuf>, ()>),
    All(Result<Seq<PathBuf>, ()>),
}

/// What a [`GpuSelection`] holds.
pub ghost enum GpuSelectionView {
    Configured,
    FindingPrimary,
    OpeningPrimary,
    FindingRender,
    ListingAll,
    OpeningAny(Seq<PathBuf>),
    Finished,
}

impl View for GpuReply {
    type V = GpuReplyView;

    open spec fn view(&self) -> GpuReplyView {
        match self {
            GpuReply::Node(node) => GpuReplyView::Node(*node),
            GpuReply::Primary(path) => GpuReplyView::Primary(*path),
            GpuReply::All(Ok(paths)) => GpuReplyView::All(Ok(paths@)),
            GpuReply::All(Err(e)) => GpuReplyView::All(Err(*e)),
        }
    }
}

impl View for GpuSelection {
    type V = GpuSelectionView;

    open spec fn view(&self) -> GpuSelectionView {
        match self {
            GpuSelection::Configured => GpuSelectionView::Configured,
            GpuSelection::FindingPrimary => GpuSelectionView::FindingPrimary,
            GpuSelection::OpeningPrimary => GpuSelectionView::OpeningPrimary,
            GpuSelection::FindingRender => GpuSelectionView::FindingRender,
            GpuSelection::ListingAll => GpuSelectionView::ListingAll,
            GpuSelection::OpeningAny(rest) => GpuSelectionView::OpeningAny(rest@),
            GpuSelection::Finished => GpuSelectionView::Finished,
        }
    }
}

/// The choice ends with `result`.
pub open spec fn finish(result: Result<DrmNode, InitError>) -> (GpuSelectionView, GpuQuery) {
    (GpuSelectionView::Finished, GpuQuery::Finished(result))
}

/// The first of `paths` is tried; where there is none, no GPU is usable.
pub open spec fn try_any(paths: Seq<PathBuf>) -> (GpuSelectionView, GpuQuery) {
    if paths.len() == 0 {
        finish(Err(InitError::NoUsableGpu))
    } else {
        (GpuSelectionView::OpeningAny(paths.drop_first()), GpuQuery::OpenAny(paths[0]))
    }
}

impl GpuSelectionView {
    /// Whether `reply` answers the lookup that was asked for last.
    pub open spec fn awaits(self, reply: GpuReplyView) -> bool {
        match self {
            GpuSelectionView::FindingPrimary => reply is Primary,
            GpuSelectionView::ListingAll => reply is All,
            GpuSelectionView::Finished => false,
            _ => reply is Node,
        }
    }

    /// How the choice begins.
    pub open spec fn begin(drm_device: Option<PathBuf>) -> (GpuSelectionView, GpuQuery) {
        match drm_device {
            Some(path) => (GpuSelectionView::Configured, GpuQuery::OpenConfigured(path)),
            None => (GpuSelectionView::FindingPrimary, GpuQuery::FindPrimary),
        }
    }

    /// How the choice goes on after `reply`.
    pub open spec fn next(self, reply: GpuReplyView) -> (GpuSelectionView, GpuQuery) {
        let list_all = (GpuSelectionView::ListingAll, GpuQuery::ListAll);
        match (self, reply) {
            (GpuSelectionView::Configured, GpuReplyView::Node(Some(node))) => finish(Ok(node)),
            (GpuSelectionView::Configured, _) => finish(Err(InitError::GpuPath)),
            (GpuSelectionView::FindingPrimary, GpuReplyView::Primary(Ok(Some(path)))) => (
                GpuSelectionView::OpeningPrimary,
                GpuQuery::OpenPrimary(path),
            ),
            (GpuSelectionView::FindingPrimary, GpuReplyView::Primary(Ok(None))) => list_all,
            (GpuSelectionView::FindingPrimary, _) => finish(Err(InitError::PrimaryGpu)),
            (GpuSelectionView::OpeningPrimary, GpuReplyView::Node(Some(node))) => (
                GpuSelectionView::FindingRender,
                GpuQuery::RenderNode(node),
            ),
            (GpuSelectionView::OpeningPrimary, _) => list_all,
            (GpuSelectionView::FindingRender, GpuReplyView::Node(Some(node))) => finish(Ok(node)),
            (GpuSelectionView::FindingRender, _) => list_all,
            (GpuSelectionView::ListingAll, GpuReplyView::All(Ok(paths))) => try_any(paths),
            (GpuSelectionView::ListingAll, _) => finish(Err(InitError::AllGpus)),
            (GpuSelectionView::OpeningAny(rest), GpuReplyView::Node(Some(node))) => finish(
                Ok(node),
            ),
            (GpuSelectionView::OpeningAny(rest), _) => try_any(rest),
            (GpuSelectionView::Finished, _) => finish(Err(InitError::NoUsableGpu)),
        }
    }
}

impl GpuSelection {
    /// Begins the choice. `drm_device` is the path that the user configured.
    pub fn start(drm_device: Option<PathBuf>) -> (started: (GpuSelection, GpuQuery))
        ensures
            (started.0@, started.1) == GpuSelectionView::begin(drm_device),
    {
        match drm_device {
            Some(path) => (GpuSelection::Configured, GpuQuery::OpenConfigured(path)),
            None => (GpuSelection::FindingPrimary, GpuQuery::FindPrimary),
        }
    }

    /// Whether `reply` answers the lookup that was asked for last.
    pub fn awaits(&self, reply: &GpuReply) -> (fits: bool)
        ensures
            fits == self@.awaits(reply@),
    {
        match self {
            GpuSelection::FindingPrimary => matches!(reply, GpuReply::Primary(_)),
            GpuSelection::ListingAll => matches!(reply, GpuReply::All(_)),
            GpuSelection::Finished => false,
            _ => matches!(reply, GpuReply::Node(_)),
        }
    }

    /// Goes on with the choice after a lookup.
    pub fn step(self, reply: GpuReply) -> (stepped: (GpuSelection, GpuQuery))
        requires
            self@.awaits(reply@),
        ensures
            (stepped.0@, stepped.1) == self@.next(reply@),
    {
        match (self, reply) {
            (GpuSelection::Configured, GpuReply::Node(Some(node))) => Self::stop(Ok(node)),
            (GpuSelection::Configured, _) => Self::stop(Err(InitError::GpuPath)),
            (GpuSelection::FindingPrimary, GpuReply::Primary(Ok(Some(path)))) => (
                GpuSelection::OpeningPrimary,
                GpuQuery::OpenPrimary(path),
            ),
            (GpuSelection::FindingPrimary, GpuReply::Primary(Ok(None))) => Self::list_all(),
            (GpuSelection::FindingPrimary, _) => Self::stop(Err(InitError::PrimaryGpu)),
            (GpuSelection::OpeningPrimary, GpuReply::Node(Some(node))) => (
                GpuSelection::FindingRender,
                GpuQuery::RenderNode(node),
            ),
            (GpuSelection::OpeningPrimary, _) => Self::list_all(),
            (GpuSelection::FindingRender, GpuReply::Node(Some(node))) => Self::stop(Ok(node)),
            (GpuSelection::FindingRender, _) => Self::list_all(),
            (GpuSelection::ListingAll, GpuReply::All(Ok(paths))) => Self::open_any(paths),
            (GpuSelection::ListingAll, _) => Self::stop(Err(InitError::AllGpus)),
            (GpuSelection::OpeningAny(_), GpuReply::Node(Some(node))) => Self::stop(Ok(node)),
            (GpuSelection::OpeningAny(rest), _) => Self::open_any(rest),
            (GpuSelection::Finished, _) => Self::stop(Err(InitError::NoUsableGpu)),
        }
    }

    fn stop(result: Result<DrmNode, InitError>) -> (stopped: (GpuSelection, GpuQuery))
        ensures
            (stopped.0@, stopped.1) == finish(result),
    {
        (GpuSelection::Finished, GpuQuery::Finished(result))
    }

    fn list_all() -> (listing: (GpuSelection, GpuQuery))
        ensures
            (listing.0@, listing.1) == (GpuSelectionView::ListingAll, GpuQuery::ListAll),
    {
        (GpuSelection::ListingAll, GpuQuery::ListAll)
    }

    fn open_any(paths: Vec<PathBuf>) -> (opening: (GpuSelection, GpuQuery))
        ensures
            (opening.0@, opening.1) == try_any(paths@),
    {
        if paths.len() == 0 {
            Self::stop(Err(InitError::NoUsableGpu))
        } else {
            let mut rest: Vec<PathBuf> = paths;
            let path: PathBuf = rest.remove(0);
            assert(rest@ =~= paths@.drop_first());
            (GpuSelection::OpeningAny(rest), GpuQuery::OpenAny(path))
        }
    }
}

/// A system to choose a GPU on: what each lookup finds there.
pub ghost struct GpuSystem {
    pub open: spec_fn(PathBuf) -> Option<DrmNode>,
    pub render: spec_fn(DrmNode) -> Option<DrmNode>,
    pub primary: Result<Option<PathBuf>, ()>,
    pub all: Result<Seq<PathBuf>, ()>,
}

impl GpuSystem {
    /// The node of the first of `paths` that opens.
    pub open spec fn first_open(self, paths: Seq<PathBuf>) -> Option<DrmNode>
        decreases paths.len(),
    {
        if paths.len() == 0 {
            None
        } else if (self.open)(paths[0]) is Some {
            (self.open)(paths[0])
        } else {
            self.first_open(paths.drop_first())
        }
    }

    /// The render node of the primary GPU, where there is one and both it and
    /// the GPU open.
    pub open spec fn primary_render(self) -> Option<DrmNode> {
        match self.primary {
            Ok(Some(path)) => match (self.open)(path) {
                Some(node) => (self.render)(node),
                None => None,
            },
            _ => None,
        }
    }

    /// The GPU that is used on this system.
    pub open spec fn chosen(self, drm_device: Option<PathBuf>) -> Result<DrmNode, InitError> {
        match drm_device {
            Some(path) => match (self.open)(path) {
                Some(node) => Ok(node),
                None => Err(InitError::GpuPath),
            },
            None => if self.primary is Err {
                Err(InitError::PrimaryGpu)
            } else {
                match (self.primary_render(), self.all) {
                    (Some(node), _) => Ok(node),
                    (None, Err(_)) => Err(InitError::AllGpus),
                    (None, Ok(paths)) => match self.first_open(paths) {
                        Some(node) => Ok(node),
                        None => Err(InitError::NoUsableGpu),
                    },
                }
            },
        }
    }

    /// What this system answers to `query`.
    pub open spec fn answer(self, query: GpuQuery) -> GpuReplyView {
        match query {
            GpuQuery::OpenConfigured(path) => GpuReplyView::Node((self.open)(path)),
            GpuQuery::FindPrimary => GpuReplyView::Primary(self.primary),
            GpuQuery::OpenPrimary(path) => GpuReplyView::Node((self.open)(path)),
            GpuQuery::RenderNode(node) => GpuReplyView::Node((self.render)(node)),
            GpuQuery::ListAll => GpuReplyView::All(self.all),
            GpuQuery::OpenAny(path) => GpuReplyView::Node((self.open)(path)),
            GpuQuery::Finished(_) => GpuReplyView::Node(None),
        }
    }

    /// Where the choice stands after `steps` lookups on this system.
    pub open spec fn after(
        self,
        drm_device: Option<PathBuf>,
        steps: nat,
    ) -> (GpuSelectionView, GpuQuery)
        decreases steps,
    {
        if steps == 0 {
            GpuSelectionView::begin(drm_device)
        } else {
            let (selection, query) = self.after(drm_device, (steps - 1) as nat);
            if query is Finished {
                (selection, query)
            } else {
                selection.next(self.answer(query))
            }
        }
    }

    /// How many lookups are made at most.
    pub open spec fn lookups(self) -> nat {
        match self.all {
            Ok(paths) => 4 + paths.len(),
            Err(_) => 4,
        }
    }
}

/// The lookup that is asked for is always one whose answer the next step takes.
pub proof fn law_answers_are_awaited(
    system: GpuSystem,
    drm_device: Option<PathBuf>,
    steps: nat,
)
    ensures
        ({
            let (selection, query) = system.after(drm_device, steps);
            query is Finished || selection.awaits(system.answer(query))
        }),
    decreases steps,
{
    if steps > 0 {
        law_answers_are_awaited(system, drm_device, (steps - 1) as nat);
    }
}

/// Trying `paths` one after the other ends with the first that opens.
proof fn lemma_try_any(
    system: GpuSystem,
    drm_device: Option<PathBuf>,
    steps: nat,
    paths: Seq<PathBuf>,
)
    requires
        system.after(drm_device, steps) == try_any(paths),
    ensures
        system.after(drm_device, steps + paths.len()) == finish(
            match system.first_open(paths) {
                Some(node) => Ok(node),
                None => Err(InitError::NoUsableGpu),
            },
        ),
    decreases paths.len(),
{
    if paths.len() > 0 {
        let next = system.after(drm_device, steps + 1);
        if (system.open)(paths[0]) is Some {
            lemma_finished_stays(system, drm_device, steps + 1, (paths.len() - 1) as nat);
        } else {
            assert(next == try_any(paths.drop_first()));
            lemma_try_any(system, drm_device, steps + 1, paths.drop_first());
        }
    }
}

/// A choice that has been made stays.
proof fn lemma_finished_stays(
    system: GpuSystem,
    drm_device: Option<PathBuf>,
    steps: nat,
    more: nat,
)
    requires
        system.after(drm_device, steps).1 is Finished,
    ensures
        system.after(drm_device, steps + more) == system.after(drm_device, steps),
    decreases more,
{
    if more > 0 {
        lemma_finished_stays(system, drm_device, steps, (more - 1) as nat);
    }
}

/// On every system the choice ends, and ends with the GPU that
/// [`GpuSystem::chosen`] describes: the configured one and no other, or else
/// the render node of the primary GPU, or else the first GPU that opens.
pub proof fn law_gpu_choice(system: GpuSystem, drm_device: Option<PathBuf>)
    ensures
        system.after(drm_device, system.lookups()) == finish(system.chosen(drm_device)),
{
    reveal_with_fuel(GpuSystem::after, 5);
    let most = system.lookups();
    if drm_device is Some || system.primary is Err {
        assert(system.after(drm_device, 1) == finish(system.chosen(drm_device)));
        lemma_finished_stays(system, drm_device, 1, (most - 1) as nat);
    } else if system.primary_render() is Some {
        assert(system.after(drm_device, 3) == finish(system.chosen(drm_device)));
        lemma_finished_stays(system, drm_device, 3, (most - 3) as nat);
    } else {
        // Listing all GPUs is asked for after one, two or three lookups.
        let listing: nat = match system.primary {
            Ok(Some(path)) => if (system.open)(path) is Some {
                3
            } else {
                2
            },
            _ => 1,
        };
        assert(system.after(drm_device, listing) == (
            GpuSelectionView::ListingAll,
            GpuQuery::ListAll,
        ));
        match system.all {
            Ok(paths) => {
                assert(system.after(drm_device, listing + 1) == try_any(paths));
                lemma_try_any(system, drm_device, listing + 1, paths);
                lemma_finished_stays(
                    system,
                    drm_device,
                    listing + 1 + paths.len(),
                    (most - (listing + 1 + paths.len())) as nat,
                );
            },
            Err(_) => {
                assert(system.after(drm_device, listing + 1) == finish(Err(InitError::AllGpus)));
                lemma_finished_stays(
                    system,
                    drm_device,
                    listing + 1,
                    (most - (listing + 1)) as nat,
                );
            },
        }
    }
}

/// Which GPU is used, over what the system has.
///
/// A configured path is used where it opens, and nothing stands in for it.
/// Otherwise the render node of the primary GPU is used. Where there is no primary
/// GPU, or it or its render node does not open, it is the first GPU of the list
/// that opens. Each failure has its own cause.
pub proof fn law_gpu_by_what_opens(
    system: GpuSystem,
    drm_device: Option<PathBuf>,
    node: DrmNode,
    position: int,
)
    ensures
        ({
            let end = system.after(drm_device, system.lookups()).1;
            let render = match system.primary {
                Ok(Some(path)) => match (system.open)(path) {
                    Some(card) => (system.render)(card),
                    None => None,
                },
                _ => None,
            };
            let falls_back = drm_device is None && system.primary is Ok && render is None;
            &&& drm_device matches Some(path) ==> end == GpuQuery::Finished(
                match (system.open)(path) {
                    Some(opened) => Ok(opened),
                    None => Err(InitError::GpuPath),
                },
            )
            &&& drm_device is None && system.primary is Err ==> end == GpuQuery::Finished(
                Err(InitError::PrimaryGpu),
            )
            &&& drm_device is None && system.primary is Ok && render == Some(node) ==> end
                == GpuQuery::Finished(Ok(node))
            &&& falls_back && system.all is Err ==> end == GpuQuery::Finished(
                Err(InitError::AllGpus),
            )
            &&& falls_back && system.all is Ok ==> {
                let paths = system.all->Ok_0;
                &&& 0 <= position < paths.len() && (system.open)(paths[position]) == Some(node) && (
                forall|i: int|
                    0 <= i < position ==> (system.open)(#[trigger] paths[i]) is None) ==> end
                    == GpuQuery::Finished(Ok(node))
                &&& (forall|i: int|
                    0 <= i < paths.len() ==> (system.open)(#[trigger] paths[i]) is None) ==> end
                    == GpuQuery::Finished(Err(InitError::NoUsableGpu))
            }
        }),
{
    law_gpu_choice(system, drm_device);
    if system.all is Ok {
        lemma_first_open(system, system.all->Ok_0, position);
    }
}

/// The first path that opens is the one before which none does.
proof fn lemma_first_open(system: GpuSystem, paths: Seq<PathBuf>, position: int)
    ensures
        0 <= position < paths.len() && (system.open)(paths[position]) is Some && (forall|i: int|
            0 <= i < position ==> (system.open)(#[trigger] paths[i]) is None)
            ==> system.first_open(paths) == (system.open)(paths[position]),
        (forall|i: int| 0 <= i < paths.len() ==> (system.open)(#[trigger] paths[i]) is None)
            ==> system.first_open(paths) is None,
    decreases paths.len(),
{
    if paths.len() > 0 {
        let rest = paths.drop_first();
        lemma_first_open(system, rest, position - 1);
        assert(forall|i: int| 0 <= i < rest.len() ==> (#[trigger] rest[i]) == paths[i + 1]);
        if (system.open)(paths[0]) is None {
            if forall|i: int| 0 <= i < paths.len() ==> (system.open)(#[trigger] paths[i]) is None {
                assert forall|i: int| 0 <= i < rest.len() implies (system.open)(
                    #[trigger] rest[i],
                ) is None by {
                    assert((system.open)(paths[i + 1]) is None);
                }
            }
            if forall|i: int| 0 <= i < position ==> (system.open)(#[trigger] paths[i]) is None {
                assert forall|i: int| 0 <= i < position - 1 && i < rest.len() implies (system.open)(
                    #[trigger] rest[i],
                ) is None by {
                    assert((system.open)(paths[i + 1]) is None);
                }
            }
        }
    }
}

/// Lookups come in their order, and each stands at what the one before it found:
/// the configured path, or the primary GPU, its node and its render node; the
/// paths of a list are tried from the first on.
pub proof fn law_lookups_follow_each_other(path: PathBuf, node: DrmNode, paths: Seq<PathBuf>)
    ensures
        GpuSelectionView::begin(Some(path)).1 == GpuQuery::OpenConfigured(path),
        GpuSelectionView::begin(None).1 == GpuQuery::FindPrimary,
        GpuSelectionView::FindingPrimary.next(GpuReplyView::Primary(Ok(Some(path)))).1
            == GpuQuery::OpenPrimary(path),
        GpuSelectionView::FindingPrimary.next(GpuReplyView::Primary(Ok(None))).1
            == GpuQuery::ListAll,
        GpuSelectionView::OpeningPrimary.next(GpuReplyView::Node(Some(node))).1
            == GpuQuery::RenderNode(node),
        GpuSelectionView::OpeningPrimary.next(GpuReplyView::Node(None)).1 == GpuQuery::ListAll,
        GpuSelectionView::FindingRender.next(GpuReplyView::Node(None)).1 == GpuQuery::ListAll,
        paths.len() > 0 ==> GpuSelectionView::ListingAll.next(GpuReplyView::All(Ok(paths))) == (
            GpuSelectionView::OpeningAny(paths.drop_first()),
            GpuQuery::OpenAny(paths[0]),
        ),
        paths.len() > 0 ==> GpuSelectionView::OpeningAny(paths).next(GpuReplyView::Node(None)) == (
            GpuSelectionView::OpeningAny(paths.drop_first()),
            GpuQuery::OpenAny(paths[0]),
        ),
{
}

/// Each stage takes the one kind of reply that its lookup can have, and the last
/// one takes none.
pub proof fn law_selection_takes_its_replies(selection: GpuSelectionView, reply: GpuReplyView)
    ensures
        selection.awaits(reply) <==> {
            ||| selection is FindingPrimary && reply is Primary
            ||| selection is ListingAll && reply is All
            ||| (selection is Configured || selection is OpeningPrimary || selection is FindingRender
                || selection is OpeningAny) && reply is Node
        },
{
}

/// What a selection and a reply hold is what is seen of them.
pub proof fn law_selection_is_seen_whole(selection: GpuSelection, reply: GpuReply)
    ensures
        selection is Configured <==> selection@ is Configured,
        selection is FindingPrimary <==> selection@ is FindingPrimary,
        selection is OpeningPrimary <==> selection@ is OpeningPrimary,
        selection is FindingRender <==> selection@ is FindingRender,
        selection is ListingAll <==> selection@ is ListingAll,
        selection matches GpuSelection::OpeningAny(rest) ==> selection@
            == GpuSelectionView::OpeningAny(rest@),
        selection is Finished <==> selection@ is Finished,
        reply matches GpuReply::Node(node) ==> reply@ == GpuReplyView::Node(node),
        reply matches GpuReply::Primary(path) ==> reply@ == GpuReplyView::Primary(path),
        reply matches GpuReply::All(Ok(paths)) ==> reply@ == GpuReplyView::All(Ok(paths@)),
        reply matches GpuReply::All(Err(cause)) ==> reply@ == GpuReplyView::All(Err(cause)),
{
}

/// A node that opens where it is the last thing that is needed is the one that is
/// used: at the configured path, as the render node of the primary GPU, or among
/// all GPUs.
pub proof fn law_node_that_opens_is_used(node: DrmNode, rest: Seq<PathBuf>)
    ensures
        ({
            let opened = GpuReplyView::Node(Some(node));
            let used = GpuQuery::Finished(Ok(node));
            &&& GpuSelectionView::Configured.next(opened).1 == used
            &&& GpuSelectionView::FindingRender.next(opened).1 == used
            &&& GpuSelectionView::OpeningAny(rest).next(opened).1 == used
        }),
{
}

} // verus!
