//! How long frames take to render on the GPU.
//!
//! Each surface keeps the latest durations only, in a window that slides.

use crate::data::{SurfaceView, UdevData};
use crate::node::{DrmNode, UdevOutputId};
use core::time::Duration;
use vstd::prelude::*;

verus! {

/// A frame that the GPU has finished.
pub struct GpuRenderDuration {
    pub node: DrmNode,
    pub crtc: u32,
    pub duration: Duration,
}

/// The window after one more duration: the oldest one leaves where there would
/// be more than `max`.
pub open spec fn slide(window: Seq<Duration>, duration: Duration, max: nat) -> Seq<Duration> {
    let longer = window.push(duration);
    if longer.len() > max {
        longer.drop_first()
    } else {
        longer
    }
}

/// The window after several durations, in their order.
pub open spec fn slide_all(window: Seq<Duration>, durations: Seq<Duration>, max: nat) -> Seq<
    Duration,
>
    decreases durations.len(),
{
    if durations.len() == 0 {
        window
    } else {
        slide(slide_all(window, durations.drop_last(), max), durations.last(), max)
    }
}

/// The last `max` items of `s`, or all of them where there are fewer.
pub open spec fn latest(s: Seq<Duration>, max: nat) -> Seq<Duration> {
    if s.len() > max {
        s.skip(s.len() - max)
    } else {
        s
    }
}

impl UdevData {
    /// Records how long a frame took, in the window of its surface. A frame of
    /// a surface that is gone is not recorded.
    pub fn record_render_duration(&mut self, frame: GpuRenderDuration, window_max: usize)
        ensures
            ({
                let id = UdevOutputId { device_id: frame.node, crtc: frame.crtc };
                final(self)@ == (if old(self)@.has_surface(id) {
                    old(self)@.with_surface(
                        id,
                        SurfaceView {
                            render_durations: slide(
                                old(self)@.surface(id).render_durations,
                                frame.duration,
                                window_max as nat,
                            ),
                            ..old(self)@.surface(id)
                        },
                    )
                } else {
                    old(self)@
                })
            }),
    {
        let id = UdevOutputId { device_id: frame.node, crtc: frame.crtc };
        match self.surface_mut(id) {
            Some(surface) => {
                surface.render_durations.push_back(frame.duration);
                if surface.render_durations.len() > window_max {
                    let _ = surface.render_durations.pop_front();
                }
            },
            None => {},
        }
    }
}

/// A window that starts within its bound holds the latest durations at any
/// time: as many as the bound allows, and never more.
pub proof fn law_window_holds_the_latest(
    window: Seq<Duration>,
    durations: Seq<Duration>,
    max: nat,
)
    requires
        window.len() <= max,
    ensures
        slide_all(window, durations, max) == latest(window + durations, max),
        slide_all(window, durations, max).len() <= max,
    decreases durations.len(),
{
    if durations.len() == 0 {
        assert(window + durations =~= window);
    } else {
        let earlier = durations.drop_last();
        law_window_holds_the_latest(window, earlier, max);
        assert(window + durations =~= (window + earlier).push(durations.last()));
        assert(slide_all(window, durations, max) =~= latest(window + durations, max));
    }
}

/// One more duration: it comes last, none but the oldest leaves, and that one
/// leaves exactly where the window was full. What stays keeps its order.
pub proof fn law_one_duration_more(window: Seq<Duration>, duration: Duration, max: nat)
    ensures
        ({
            let after = slide(window, duration, max);
            let left: int = if window.len() >= max {
                1
            } else {
                0
            };
            &&& after.len() == window.len() + 1 - left
            &&& forall|i: int|
                0 <= i < after.len() ==> (#[trigger] after[i]) == (if i + left < window.len() {
                    window[i + left]
                } else {
                    duration
                })
        }),
{
}

/// However many durations are recorded in a window that starts empty, the one
/// that lies `age` back is still there exactly where fewer than `max` have been
/// recorded since.
pub proof fn law_window_remembers(durations: Seq<Duration>, max: nat, age: nat)
    requires
        age < durations.len(),
    ensures
        ({
            let window = slide_all(Seq::empty(), durations, max);
            &&& window.len() == (if durations.len() < max {
                durations.len()
            } else {
                max
            })
            &&& age < max ==> window[window.len() - 1 - age] == durations[durations.len() - 1 - age]
        }),
{
    law_window_holds_the_latest(Seq::empty(), durations, max);
    assert(Seq::<Duration>::empty() + durations =~= durations);
}

} // verus!
