//! What clients get to see of the backend.

use vstd::prelude::*;

verus! {

/// The EGL extension by which clients hand over EGL buffers. It is superseded
/// by dmabufs, and many drivers do without it.
pub open spec fn bind_wayland_display() -> Seq<char> {
    "EGL_WL_bind_wayland_display"@
}

/// How binding EGL to the Wayland display failed.
pub enum EglBindError {
    /// None of these extensions is supported, and one of them is needed.
    ExtensionNotSupported(Vec<String>),
    /// Anything else.
    Other,
}

/// What clients have of EGL.
#[derive(Clone, Copy, Debug, PartialEq, Eq, Hash, Structural)]
pub enum EglSupport {
    /// EGL buffers are accelerated.
    Enabled,
    /// The driver does without the extension, which is no fault.
    NotSupported,
    /// EGL could not be set up.
    Failed,
}

/// Whether binding needed no other extension than the superseded one.
pub open spec fn needs_only_bind_wayland_display(extensions: Seq<String>) -> bool {
    forall|i: int|
        0 <= i < extensions.len() ==> (#[trigger] extensions[i])@ == bind_wayland_display()
}

fn only_bind_wayland_display(extensions: &Vec<String>) -> (only: bool)
    ensures
        only == needs_only_bind_wayland_display(extensions@),
{
    let expected: String = "EGL_WL_bind_wayland_display".to_owned();
    let mut i: usize = 0;
    while i < extensions.len()
        invariant
            i <= extensions.len(),
            expected@ == bind_wayland_display(),
            forall|n: int| 0 <= n < i ==> (#[trigger] extensions@[n])@ == bind_wayland_display(),
        decreases extensions.len() - i,
    {
        if extensions[i] != expected {
            return false;
        }
        i = i + 1;
    }
    true
}

/// Tells a driver without the extension apart from a failure.
pub fn egl_support(bound: Result<(), EglBindError>) -> (support: EglSupport)
    ensures
        support == (match bound {
            Ok(_) => EglSupport::Enabled,
            Err(EglBindError::ExtensionNotSupported(extensions)) => if needs_only_bind_wayland_display(
                extensions@,
            ) {
                EglSupport::NotSupported
            } else {
                EglSupport::Failed
            },
            Err(EglBindError::Other) => EglSupport::Failed,
        }),
        support is Enabled <==> bound is Ok,
        support is NotSupported <==> (bound matches Err(EglBindError::ExtensionNotSupported(names))
            && forall|i: int|
            0 <= i < names@.len() ==> (#[trigger] names@[i])@ == "EGL_WL_bind_wayland_display"@),
{
    match bound {
        Ok(_) => EglSupport::Enabled,
        Err(EglBindError::ExtensionNotSupported(extensions)) => if only_bind_wayland_display(
            &extensions,
        ) {
            EglSupport::NotSupported
        } else {
            EglSupport::Failed
        },
        Err(EglBindError::Other) => EglSupport::Failed,
    }
}

/// Whether a client may see the globals that control outputs (gamma, power):
/// any client but one that runs in a sandbox, which has a security context.
pub fn sees_output_control(has_security_context: bool) -> (visible: bool)
    ensures
        visible == !has_security_context,
{
    !has_security_context
}

/// A driver that does without the superseded extension is no fault exactly where
/// every extension that was asked for is that one. A single other extension, at
/// any place of the list, makes it one.
pub proof fn law_every_extension_counts(extensions: Seq<String>)
    ensures
        needs_only_bind_wayland_display(extensions) <==> !(exists|i: int|
            0 <= i < extensions.len() && (#[trigger] extensions[i])@
                != "EGL_WL_bind_wayland_display"@),
{
}

/// Extensions of two lists are judged together as they are judged apart.
pub proof fn law_extensions_are_judged_apart(first: Seq<String>, second: Seq<String>)
    ensures
        needs_only_bind_wayland_display(first + second) <==> needs_only_bind_wayland_display(first)
            && needs_only_bind_wayland_display(second),
{
    let both = first + second;
    if needs_only_bind_wayland_display(both) {
        assert forall|i: int| 0 <= i < first.len() implies (#[trigger] first[i])@
            == bind_wayland_display() by {
            assert(both[i] == first[i]);
        }
        assert forall|i: int| 0 <= i < second.len() implies (#[trigger] second[i])@
            == bind_wayland_display() by {
            assert(both[first.len() + i] == second[i]);
        }
    }
}

} // verus!
