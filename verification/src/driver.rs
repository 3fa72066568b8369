//! The event-loop driver's state and its two transitions: inspecting one
//! window event, and the drain phase that coalesces pending resizes into a
//! single swapchain rebuild.

use vstd::prelude::*;
use crate::config::{Extent, SwapchainConfig, configure, configure_spec};

verus! {

/// A platform window event, as the window layer reports it. Every event is
/// handed to the scene first and then inspected by the driver.
#[derive(Clone, Copy, PartialEq, Eq, Structural, Debug)]
pub enum WindowEvent {
    /// The window was resized; carries the size the platform reported. The
    /// driver only marks the swapchain stale: the rebuild uses the size
    /// sampled later, at drain time.
    Resized(Extent),
    /// The user asked to close the window.
    CloseRequested,
    /// Any other input event; the payload tells inputs apart, the driver
    /// ignores it and leaves it to the scene.
    Input(u32),
}

/// The driver's mutable loop state: the one live swapchain configuration,
/// the coalescing resize flag, and the termination flag.
#[derive(Clone, Copy, PartialEq, Eq, Structural, Debug)]
pub struct Driver {
    /// The configuration of the one live swapchain.
    pub swapchain: SwapchainConfig,
    /// Set by a resize event; cleared by the drain phase after it rebuilds.
    pub resized: bool,
    /// Set by a close request; once set, the loop terminates.
    pub exiting: bool,
}

/// The driver right after startup: the swapchain has been built once, for the
/// window's initial size, and no event has been seen.
pub open spec fn initial_driver(size: Extent) -> Driver {
    Driver { swapchain: configure_spec(size), resized: false, exiting: false }
}

/// What one window event does to the driver: a resize marks the swapchain
/// stale, a close request marks the loop as terminating, anything else
/// changes nothing. No event rebuilds the swapchain.
pub open spec fn on_event_spec(d: Driver, e: WindowEvent) -> Driver {
    match e {
        WindowEvent::Resized(_) => Driver { resized: true, ..d },
        WindowEvent::CloseRequested => Driver { exiting: true, ..d },
        WindowEvent::Input(_) => d,
    }
}

/// The driver after a whole batch of events, delivered in order.
pub open spec fn on_events_spec(d: Driver, es: Seq<WindowEvent>) -> Driver
    decreases es.len(),
{
    if es.len() == 0 {
        d
    } else {
        on_events_spec(on_event_spec(d, es[0]), es.skip(1))
    }
}

/// Whether a batch of events contains a resize.
pub open spec fn has_resize(es: Seq<WindowEvent>) -> bool {
    exists|i: int| 0 <= i < es.len() && es[i] is Resized
}

/// Whether a batch of events contains a close request.
pub open spec fn has_close(es: Seq<WindowEvent>) -> bool {
    exists|i: int| 0 <= i < es.len() && es[i] is CloseRequested
}

/// A batch of events never touches the swapchain; it leaves the resize flag
/// set exactly when it was set before or a resize arrived, and the
/// termination flag set exactly when it was set before or a close request
/// arrived.
pub proof fn lemma_on_events_spec(d: Driver, es: Seq<WindowEvent>)
    ensures
        on_events_spec(d, es).swapchain == d.swapchain,
        on_events_spec(d, es).resized == (d.resized || has_resize(es)),
        on_events_spec(d, es).exiting == (d.exiting || has_close(es)),
    decreases es.len(),
{
    if es.len() == 0 {
        assert(!has_resize(es));
        assert(!has_close(es));
    } else {
        let tail = es.skip(1);
        lemma_on_events_spec(on_event_spec(d, es[0]), tail);
        if has_resize(es) {
            let i = choose|i: int| 0 <= i < es.len() && es[i] is Resized;
            if i > 0 {
                assert(tail[i - 1] is Resized);
            }
        }
        if has_resize(tail) {
            let i = choose|i: int| 0 <= i < tail.len() && tail[i] is Resized;
            assert(es[i + 1] is Resized);
        }
        if has_close(es) {
            let i = choose|i: int| 0 <= i < es.len() && es[i] is CloseRequested;
            if i > 0 {
                assert(tail[i - 1] is CloseRequested);
            }
        }
        if has_close(tail) {
            let i = choose|i: int| 0 <= i < tail.len() && tail[i] is CloseRequested;
            assert(es[i + 1] is CloseRequested);
        }
    }
}

/// Delivering a batch and then one more event is the same as delivering the
/// batch with that event appended.
pub proof fn lemma_on_events_snoc(d: Driver, es: Seq<WindowEvent>, e: WindowEvent)
    ensures
        on_events_spec(d, es.push(e)) == on_event_spec(on_events_spec(d, es), e),
    decreases es.len(),
{
    if es.len() == 0 {
        assert(es.push(e)[0] == e);
        assert(es.push(e).skip(1) =~= Seq::<WindowEvent>::empty());
        assert(on_events_spec(d, es.push(e)) == on_events_spec(
            on_event_spec(d, e),
            Seq::<WindowEvent>::empty(),
        ));
        assert(on_events_spec(on_event_spec(d, e), Seq::<WindowEvent>::empty()) == on_event_spec(
            d,
            e,
        ));
        assert(on_events_spec(d, es) == d);
    } else {
        assert(es.push(e)[0] == es[0]);
        assert(es.push(e).skip(1) =~= es.skip(1).push(e));
        lemma_on_events_snoc(on_event_spec(d, es[0]), es.skip(1), e);
        assert(on_events_spec(d, es.push(e)) == on_events_spec(
            on_event_spec(d, es[0]),
            es.skip(1).push(e),
        ));
        assert(on_events_spec(d, es) == on_events_spec(on_event_spec(d, es[0]), es.skip(1)));
    }
}

/// The driver after the drain phase for window size `size`: if a resize was
/// pending, the swapchain is the one rebuilt for `size` and the flag is
/// cleared; otherwise everything but the flag is untouched.
pub open spec fn drained_spec(d: Driver, size: Extent) -> Driver {
    Driver {
        swapchain: if d.resized { configure_spec(size) } else { d.swapchain },
        resized: false,
        exiting: d.exiting,
    }
}

impl Driver {
    /// Startup: build the one initial swapchain for the window's current
    /// physical size.
    pub fn new(size: Extent) -> (d: Driver)
        ensures
            d == initial_driver(size),
    {
        Driver { swapchain: configure(size), resized: false, exiting: false }
    }

    /// Inspect one window event, after the scene has seen it: a resize marks
    /// the swapchain stale (it is not rebuilt immediately), a close request
    /// asks the loop to terminate, anything else is left to the scene.
    pub fn on_event(&mut self, e: &WindowEvent)
        ensures
            *final(self) == on_event_spec(*old(self), *e),
    {
        match e {
            WindowEvent::Resized(_) => {
                self.resized = true;
            }
            WindowEvent::CloseRequested => {
                self.exiting = true;
            }
            WindowEvent::Input(_) => {}
        }
    }

    /// The drain phase's rebuild decision, taken once the turn's events are
    /// exhausted: if any resize was seen, rebuild the swapchain once, for the
    /// window's physical size as it is now, and clear the flag; the returned
    /// configuration, if any, is the one the caller must create a swapchain
    /// from before acquiring the next frame.
    pub fn prepare_frame(&mut self, size: Extent) -> (rebuild: Option<SwapchainConfig>)
        ensures
            *final(self) == drained_spec(*old(self), size),
            old(self).resized ==> rebuild == Some(configure_spec(size)),
            !old(self).resized ==> rebuild is None,
    {
        if self.resized {
            let c = configure(size);
            self.swapchain = c;
            self.resized = false;
            Some(c)
        } else {
            None
        }
    }

    /// Whether a close request has been observed, in which case the loop
    /// terminates instead of draining.
    pub fn should_exit(&self) -> (b: bool)
        ensures
            b == self.exiting,
    {
        self.exiting
    }
}

} // verus!
