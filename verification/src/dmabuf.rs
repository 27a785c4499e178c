//! Which buffer formats clients are offered.

use crate::data::{lemma_same_surface, SurfaceData, SurfaceView, UdevData, UdevView};
use crate::lists::{key_list, lemma_push_contains};
use crate::node::{DrmNode, UdevOutputId};
use std::collections::HashMap;
use vstd::prelude::*;

verus! {

broadcast use vstd::std_specs::hash::group_hash_axioms;

/// A buffer format: the code of the pixel layout, and the modifier that says
/// how the pixels are laid out in memory.
#[derive(Clone, Copy, Debug, PartialEq, Eq, Hash, Structural)]
pub struct Format {
    pub code: u32,
    pub modifier: u64,
}

/// The formats that a capture buffer on `node` may have, by code.
pub struct DmabufConstraints {
    pub node: DrmNode,
    pub formats: Vec<(u32, Vec<u64>)>,
}

/// The modifiers that `formats` pairs with `code`, in their order.
pub open spec fn modifiers_of(formats: Seq<Format>, code: u32) -> Seq<u64> {
    formats.filter(|f: Format| f.code == code).map_values(|f: Format| f.modifier)
}

/// Whether `formats` holds a format with this code.
pub open spec fn has_code(formats: Seq<Format>, code: u32) -> bool {
    exists|i: int| 0 <= i < formats.len() && (#[trigger] formats[i]).code == code
}

/// Whether `grouped` lists each code of `formats` once, with the modifiers it
/// comes with.
pub open spec fn groups(grouped: Seq<(u32, Vec<u64>)>, formats: Seq<Format>) -> bool {
    &&& forall|i: int, j: int|
        0 <= i < j < grouped.len() ==> (#[trigger] grouped[i]).0 != (#[trigger] grouped[j]).0
    &&& forall|i: int|
        0 <= i < grouped.len() ==> has_code(formats, (#[trigger] grouped[i]).0) && grouped[i].1@
            == modifiers_of(formats, grouped[i].0)
    &&& forall|code: u32| #[trigger]
        has_code(formats, code) ==> exists|i: int|
            0 <= i < grouped.len() && (#[trigger] grouped[i]).0 == code
}

proof fn lemma_modifiers_push(formats: Seq<Format>, format: Format, code: u32)
    ensures
        modifiers_of(formats.push(format), code) == (if format.code == code {
            modifiers_of(formats, code).push(format.modifier)
        } else {
            modifiers_of(formats, code)
        }),
        has_code(formats.push(format), code) <==> has_code(formats, code) || format.code == code,
{
    let wanted = |f: Format| f.code == code;
    assert(formats.push(format).drop_last() =~= formats);
    assert(formats.push(format).filter(wanted) == (if wanted(format) {
        formats.filter(wanted).push(format)
    } else {
        formats.filter(wanted)
    })) by {
        reveal(Seq::filter);
    }
    assert(modifiers_of(formats.push(format), code) =~= (if format.code == code {
        modifiers_of(formats, code).push(format.modifier)
    } else {
        modifiers_of(formats, code)
    }));
    if has_code(formats, code) {
        let i = choose|i: int| 0 <= i < formats.len() && (#[trigger] formats[i]).code == code;
        assert(formats.push(format)[i].code == code);
    }
    assert(formats.push(format)[formats.len() as int] == format);
}

/// Groups formats by their code, in no particular order of the codes.
pub fn group_formats(formats: &Vec<Format>) -> (grouped: Vec<(u32, Vec<u64>)>)
    ensures
        groups(grouped@, formats@),
{
    let mut map: HashMap<u32, Vec<u64>> = HashMap::new();
    let mut i: usize = 0;
    proof {
        assert forall|code: u32| modifiers_of(formats@.take(0), code).len() == 0 by {
            reveal(Seq::filter);
        }
    }
    while i < formats.len()
        invariant
            i <= formats.len(),
            forall|code: u32| #[trigger]
                map@.contains_key(code) <==> has_code(formats@.take(i as int), code),
            forall|code: u32| #[trigger]
                map@.contains_key(code) ==> map@[code]@ == modifiers_of(
                    formats@.take(i as int),
                    code,
                ),
            forall|code: u32|
                !map@.contains_key(code) ==> (#[trigger] modifiers_of(
                    formats@.take(i as int),
                    code,
                )).len() == 0,
        decreases formats.len() - i,
    {
        let format: Format = formats[i];
        let ghost before = map@;
        let modifiers: &mut Vec<u64> = map.entry(format.code).or_insert(Vec::new());
        modifiers.push(format.modifier);
        proof {
            assert(formats@.take(i + 1) =~= formats@.take(i as int).push(format));
            assert forall|code: u32| true implies ({
                &&& #[trigger] map@.contains_key(code) <==> has_code(formats@.take(i + 1), code)
                &&& map@.contains_key(code) ==> map@[code]@ == modifiers_of(
                    formats@.take(i + 1),
                    code,
                )
                &&& !map@.contains_key(code) ==> modifiers_of(formats@.take(i + 1), code).len() == 0
            }) by {
                lemma_modifiers_push(formats@.take(i as int), format, code);
                assert(before.contains_key(code) || !before.contains_key(code));
            }
        }
        i = i + 1;
    }
    assert(formats@.take(formats.len() as int) =~= formats@);
    let codes: Vec<u32> = key_list(&map);
    let ghost all = map@;
    let mut grouped: Vec<(u32, Vec<u64>)> = Vec::new();
    let mut n: usize = 0;
    assert forall|k: int| 0 <= k < codes.len() implies all.contains_key(#[trigger] codes@[k]) by {
        assert(codes@.contains(codes@[k]));
    }
    while n < codes.len()
        invariant
            n <= codes.len(),
            codes@.no_duplicates(),
            forall|code: u32| #[trigger] codes@.contains(code) <==> all.contains_key(code),
            grouped.len() == n,
            forall|k: int|
                0 <= k < n ==> (#[trigger] grouped@[k]).0 == codes@[k] && grouped@[k].1
                    == all[codes@[k]],
            forall|k: int|
                n <= k < codes.len() ==> map@.contains_key(#[trigger] codes@[k])
                    && map@[codes@[k]] == all[codes@[k]],
        decreases codes.len() - n,
    {
        let code: u32 = codes[n];
        let modifiers: Vec<u64> = map.remove(&code).unwrap();
        grouped.push((code, modifiers));
        n = n + 1;
    }
    proof {
        assert forall|k: int| 0 <= k < grouped.len() implies has_code(
            formats@,
            (#[trigger] grouped@[k]).0,
        ) && grouped@[k].1@ == modifiers_of(formats@, grouped@[k].0) by {
            assert(codes@.contains(codes@[k]));
        }
        assert forall|code: u32| #[trigger] has_code(formats@, code) implies exists|k: int|
            0 <= k < grouped.len() && (#[trigger] grouped@[k]).0 == code by {
            assert(all.contains_key(code));
            assert(codes@.contains(code));
            let k = choose|k: int| 0 <= k < codes@.len() && codes@[k] == code;
            assert(grouped@[k].0 == code);
        }
    }
    grouped
}

/// A code is offered with a modifier exactly where the renderer supports the
/// two together.
pub proof fn law_offered_formats_are_supported(
    grouped: Seq<(u32, Vec<u64>)>,
    formats: Seq<Format>,
    format: Format,
)
    requires
        groups(grouped, formats),
    ensures
        formats.contains(format) <==> exists|i: int|
            0 <= i < grouped.len() && (#[trigger] grouped[i]).0 == format.code
                && grouped[i].1@.contains(format.modifier),
{
    let wanted = |f: Format| f.code == format.code;
    let kept = formats.filter(wanted);
    if formats.contains(format) {
        let n = choose|n: int| 0 <= n < formats.len() && formats[n] == format;
        assert(has_code(formats, format.code));
        let i = choose|i: int| 0 <= i < grouped.len() && (#[trigger] grouped[i]).0 == format.code;
        assert(wanted(formats[n]));
        assert(kept.contains(formats[n]));
        let k = choose|k: int| 0 <= k < kept.len() && kept[k] == format;
        assert(modifiers_of(formats, format.code)[k] == format.modifier);
        assert(grouped[i].1@.contains(format.modifier));
    }
    if exists|i: int|
        0 <= i < grouped.len() && (#[trigger] grouped[i]).0 == format.code
            && grouped[i].1@.contains(format.modifier) {
        let i = choose|i: int|
            0 <= i < grouped.len() && (#[trigger] grouped[i]).0 == format.code
                && grouped[i].1@.contains(format.modifier);
        let k = choose|k: int|
            0 <= k < grouped[i].1@.len() && grouped[i].1@[k] == format.modifier;
        assert(kept[k].modifier == format.modifier);
        assert(wanted(kept[k]));
        assert(kept[k] == format);
        formats.lemma_filter_contains_rev(wanted, kept[k]);
    }
}

/// A surface that clients are to be told suitable formats for.
#[derive(Clone, Copy, Debug, PartialEq, Eq, Hash, Structural)]
pub struct FeedbackRequest {
    pub id: UdevOutputId,
    /// The node that renders for the surface, if it is not the primary GPU.
    pub render_node: Option<DrmNode>,
}

impl UdevView {
    /// Whether the surface that `id` names has a DRM output and no feedback.
    pub open spec fn lacks_feedback(self, id: UdevOutputId) -> bool {
        self.has_drm_output(id) && !self.surface(id).dmabuf_feedback
    }

    /// The same backend, once it is known whether feedback could be `made` for
    /// the surface that `id` names.
    pub open spec fn with_feedback(self, id: UdevOutputId, made: bool) -> UdevView {
        if self.lacks_feedback(id) && made {
            self.with_surface(id, SurfaceView { dmabuf_feedback: true, ..self.surface(id) })
        } else {
            self
        }
    }

    /// What is asked for the surface that `id` names.
    pub open spec fn feedback_request(self, id: UdevOutputId) -> FeedbackRequest {
        FeedbackRequest { id, render_node: self.surface(id).render_node }
    }
}

impl UdevData {
    /// The buffer constraints of captures on `node`, or on the primary GPU
    /// where none is named. `formats` are the formats that the renderer of that
    /// node can bind, or `None` where there is no renderer or it names none.
    pub fn dmabuf_constraints(
        &self,
        node: Option<DrmNode>,
        formats: Option<&Vec<Format>>,
    ) -> (constraints: Option<DmabufConstraints>)
        ensures
            match (constraints, formats) {
                (Some(found), Some(supported)) => {
                    &&& found.node == (match node {
                        Some(named) => named,
                        None => self@.primary_gpu,
                    })
                    &&& groups(found.formats@, supported@)
                },
                (None, None) => true,
                _ => false,
            },
    {
        match formats {
            Some(supported) => Some(
                DmabufConstraints {
                    node: self.renderer(node),
                    formats: group_formats(supported),
                },
            ),
            None => None,
        }
    }

    /// Lists what feedback has to be asked for: one request for each surface
    /// that has a DRM output and no feedback yet, in no particular order.
    pub fn pending_feedback(&self) -> (requests: Vec<FeedbackRequest>)
        ensures
            requests@.no_duplicates(),
            forall|request: FeedbackRequest| #[trigger]
                requests@.contains(request) <==> self@.lacks_feedback(request.id) && request
                    == self@.feedback_request(request.id),
            forall|request: FeedbackRequest| #[trigger]
                requests@.contains(request) ==> request.render_node == self@.surface(
                    request.id,
                ).render_node,
    {
        let ids: Vec<UdevOutputId> = self.drm_output_ids();
        let mut requests: Vec<FeedbackRequest> = Vec::new();
        let mut i: usize = 0;
        while i < ids.len()
            invariant
                i <= ids.len(),
                ids@.no_duplicates(),
                forall|id: UdevOutputId| #[trigger] ids@.contains(id) <==> self@.has_drm_output(id),
                requests@.no_duplicates(),
                forall|request: FeedbackRequest| #[trigger]
                    requests@.contains(request) <==> self@.lacks_feedback(request.id) && request
                        == self@.feedback_request(request.id) && ids@.take(i as int).contains(
                        request.id,
                    ),
            decreases ids.len() - i,
        {
            let id: UdevOutputId = ids[i];
            assert(ids@.contains(id));
            assert(!ids@.take(i as int).contains(id));
            let ghost before = requests@;
            let surface: &SurfaceData = self.surface(id).unwrap();
            let request = FeedbackRequest { id, render_node: surface.render_node };
            assert(!before.contains(request));
            if !surface.dmabuf_feedback {
                requests.push(request);
            }
            proof {
                assert(ids@.take(i + 1) =~= ids@.take(i as int).push(id));
                assert forall|other: FeedbackRequest| #[trigger]
                    requests@.contains(other) <==> self@.lacks_feedback(other.id) && other
                        == self@.feedback_request(other.id) && ids@.take(i + 1).contains(
                        other.id,
                    ) by {
                    lemma_push_contains(before, request, other);
                    lemma_push_contains(ids@.take(i as int), id, other.id);
                }
            }
            i = i + 1;
        }
        assert(ids@.take(ids.len() as int) =~= ids@);
        requests
    }

    /// Records whether feedback could be made for a surface. Feedback that is
    /// there already stays, and a surface without a DRM output gets none.
    pub fn store_feedback(&mut self, id: UdevOutputId, made: bool)
        ensures
            final(self)@ == old(self)@.with_feedback(id, made),
    {
        let ghost before = self@;
        match self.surface_mut(id) {
            Some(surface) => {
                if surface.drm_output.is_some() && !surface.dmabuf_feedback {
                    surface.dmabuf_feedback = made;
                }
            },
            None => {},
        }
        proof {
            if before.has_surface(id) {
                lemma_same_surface(before, id);
            }
        }
    }
}

/// Feedback that was made is not asked for again, and what was not made still
/// is; the feedback of every other surface stays as it was.
pub proof fn law_feedback_is_asked_for_once(
    data: UdevView,
    id: UdevOutputId,
    made: bool,
    other: UdevOutputId,
)
    ensures
        data.with_feedback(id, made).lacks_feedback(other) <==> data.lacks_feedback(other) && !(
        other == id && made),
        data.has_surface(other) && data.surface(other).dmabuf_feedback ==> data.with_feedback(
            id,
            made,
        ).surface(other).dmabuf_feedback,
{
}

/// The modifiers of a code: one more format adds its modifier at the end where it
/// has that code, and adds nothing where it has another. So every format counts
/// once, in the order of the list.
pub proof fn law_modifiers_are_listed_in_order(formats: Seq<Format>, format: Format, code: u32)
    ensures
        modifiers_of(Seq::empty(), code) == Seq::<u64>::empty(),
        format.code == code ==> modifiers_of(formats.push(format), code) == modifiers_of(
            formats,
            code,
        ).push(format.modifier),
        format.code != code ==> modifiers_of(formats.push(format), code) == modifiers_of(
            formats,
            code,
        ),
{
    lemma_modifiers_push(formats, format, code);
    assert(modifiers_of(Seq::empty(), code) =~= Seq::<u64>::empty()) by {
        reveal(Seq::filter);
    }
}

/// Grouped formats hold a code exactly where some format has it, and hold it
/// once, with all its modifiers.
pub proof fn law_each_code_is_grouped_once(
    grouped: Seq<(u32, Vec<u64>)>,
    formats: Seq<Format>,
    code: u32,
)
    requires
        groups(grouped, formats),
    ensures
        (exists|n: int| 0 <= n < formats.len() && (#[trigger] formats[n]).code == code) <==> (exists|
            i: int,
        | 0 <= i < grouped.len() && (#[trigger] grouped[i]).0 == code),
        forall|i: int, j: int|
            0 <= i < grouped.len() && 0 <= j < grouped.len() && (#[trigger] grouped[i]).0 == code
                && (#[trigger] grouped[j]).0 == code ==> i == j,
        forall|i: int|
            0 <= i < grouped.len() && (#[trigger] grouped[i]).0 == code ==> grouped[i].1@
                == modifiers_of(formats, code) && grouped[i].1@.len() > 0,
{
    if exists|n: int| 0 <= n < formats.len() && (#[trigger] formats[n]).code == code {
        assert(has_code(formats, code));
    }
    assert forall|i: int| 0 <= i < grouped.len() && (#[trigger] grouped[i]).0 == code implies
        grouped[i].1@ == modifiers_of(formats, code) && grouped[i].1@.len() > 0 by {
        assert(has_code(formats, grouped[i].0));
        let n = choose|n: int| 0 <= n < formats.len() && (#[trigger] formats[n]).code == code;
        assert(formats.contains(formats[n]));
        law_offered_formats_are_supported(grouped, formats, formats[n]);
        let k = choose|k: int|
            0 <= k < grouped.len() && (#[trigger] grouped[k]).0 == code
                && grouped[k].1@.contains(formats[n].modifier);
        assert(k == i);
    }
}

/// Feedback is asked for exactly where a surface has a DRM output and none yet.
/// What is asked carries the render node that the surface itself names, whichever
/// device drives it, and none where it names none.
pub proof fn law_feedback_is_asked_with_the_render_node_of_the_surface(
    data: UdevView,
    dev_id: u64,
    crtc: u32,
    render_node: Option<DrmNode>,
)
    requires
        data.backends.contains_key(dev_id),
        data.backends[dev_id].surfaces.contains_key(crtc),
    ensures
        ({
            let id = UdevOutputId { device_id: DrmNode { dev_id }, crtc };
            let surface = data.backends[dev_id].surfaces[crtc];
            &&& data.lacks_feedback(id) <==> surface.drm_output is Some && !surface.dmabuf_feedback
            &&& data.feedback_request(id) == (FeedbackRequest { id, render_node })
                <==> surface.render_node == render_node
        }),
{
}

/// Nothing is asked for a surface that is not there.
pub proof fn law_no_feedback_without_a_surface(data: UdevView, id: UdevOutputId)
    ensures
        data.lacks_feedback(id) ==> data.backends.contains_key(id.device_id.dev_id)
            && data.backends[id.device_id.dev_id].surfaces.contains_key(id.crtc),
{
}

/// Feedback that could be made is noted on its surface, and on nothing else; what
/// could not be made changes nothing.
pub proof fn law_feedback_is_noted_on_its_surface(data: UdevView, id: UdevOutputId)
    ensures
        data.with_feedback(id, false) == data,
        data.lacks_feedback(id) ==> data.with_feedback(id, true) == data.with_surface(
            id,
            SurfaceView { dmabuf_feedback: true, ..data.surface(id) },
        ),
        !data.lacks_feedback(id) ==> data.with_feedback(id, true) == data,
{
}

} // verus!
