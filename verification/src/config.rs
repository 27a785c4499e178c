//! What the user may configure.

use std::path::PathBuf;
use vstd::prelude::*;

verus! {

/// `std::path::PathBuf`: a path is carried from the configuration and from
/// device queries to whoever opens it, and never looked into.
#[verifier::external_type_specification]
#[verifier::external_body]
pub struct ExPathBuf(std::path::PathBuf);

/// Options of the udev backend.
pub struct UdevConfig {
    /// The GPU to use as the primary one, in place of the one that is found.
    pub drm_device: Option<PathBuf>,
    pub disable_gles_instancing: bool,
    pub disable_10bit_color: bool,
    pub disable_direct_scanout: bool,
}

/// A capability of the GLES renderer.
#[derive(Clone, Copy, Debug, PartialEq, Eq, Hash, Structural)]
pub enum Capability {
    Instancing,
    Blit,
    TenBit,
    Renderbuffer,
    Fencing,
    ExportFence,
    Debug,
}

/// The capabilities a renderer is made with, out of the `supported` ones:
/// all of them, or all but instancing where the user disabled it.
pub open spec fn spec_renderer_capabilities(
    supported: Seq<Capability>,
    disable_gles_instancing: bool,
) -> Seq<Capability> {
    if disable_gles_instancing {
        supported.filter(|c: Capability| c != Capability::Instancing)
    } else {
        supported
    }
}

/// Chooses the capabilities that a GLES renderer is made with.
pub fn renderer_capabilities(
    supported: Vec<Capability>,
    disable_gles_instancing: bool,
) -> (kept: Vec<Capability>)
    ensures
        kept@ == spec_renderer_capabilities(supported@, disable_gles_instancing),
{
    if !disable_gles_instancing {
        return supported;
    }
    let ghost wanted = |c: Capability| c != Capability::Instancing;
    let mut kept: Vec<Capability> = Vec::new();
    let mut i: usize = 0;
    proof {
        assert(supported@.take(0).filter(wanted) =~= Seq::<Capability>::empty()) by {
            reveal(Seq::filter);
        }
    }
    while i < supported.len()
        invariant
            i <= supported.len(),
            wanted == (|c: Capability| c != Capability::Instancing),
            kept@ == supported@.take(i as int).filter(wanted),
        decreases supported.len() - i,
    {
        let capability: Capability = supported[i];
        if capability != Capability::Instancing {
            kept.push(capability);
        }
        proof {
            let before = supported@.take(i as int);
            assert(supported@.take(i + 1) =~= before.push(capability));
            assert(supported@.take(i + 1).drop_last() =~= before);
            reveal(Seq::filter);
        }
        i = i + 1;
    }
    assert(supported@.take(supported.len() as int) =~= supported@);
    kept
}

/// Where instancing is disabled, it is the one capability that is lost: no other
/// one is lost, none is gained, and none comes more or less often than before.
/// Where it is not, the capabilities are the supported ones.
pub proof fn law_only_instancing_is_lost(
    supported: Seq<Capability>,
    disable_gles_instancing: bool,
    capability: Capability,
)
    ensures
        ({
            let kept = spec_renderer_capabilities(supported, disable_gles_instancing);
            &&& !disable_gles_instancing ==> kept == supported
            &&& kept.to_multiset().count(capability) == (if disable_gles_instancing && capability
                == Capability::Instancing {
                0
            } else {
                supported.to_multiset().count(capability)
            })
        }),
    decreases supported.len(),
{
    broadcast use vstd::seq_lib::group_to_multiset_ensures;

    let kept = spec_renderer_capabilities(supported, disable_gles_instancing);
    if disable_gles_instancing {
        if supported.len() == 0 {
            reveal(Seq::filter);
        } else {
            let before = supported.drop_last();
            law_only_instancing_is_lost(before, true, capability);
            law_capabilities_are_taken_one_by_one(before, true, supported.last());
            assert(before.push(supported.last()) =~= supported);
        }
    }
}

/// Each capability is kept or lost for itself, and those that are kept stay in
/// their order: one more supported capability comes last, or not at all where it
/// is instancing and that is disabled.
pub proof fn law_capabilities_are_taken_one_by_one(
    supported: Seq<Capability>,
    disable_gles_instancing: bool,
    capability: Capability,
)
    ensures
        spec_renderer_capabilities(Seq::empty(), disable_gles_instancing) == Seq::<
            Capability,
        >::empty(),
        spec_renderer_capabilities(supported.push(capability), disable_gles_instancing) == (
        if disable_gles_instancing && capability == Capability::Instancing {
            spec_renderer_capabilities(supported, disable_gles_instancing)
        } else {
            spec_renderer_capabilities(supported, disable_gles_instancing).push(capability)
        }),
{
    reveal(Seq::filter);
    assert(supported.push(capability).drop_last() =~= supported);
}

} // verus!
