//! The launcher: build the startup swapchain, construct the scene once, then
//! run the event loop over a script of turns, recording everything observable
//! into a [`Trace`] that is proved to match the run model of [`crate::run`].

use vstd::prelude::*;
use crate::config::{Extent, SwapchainConfig};
use crate::driver::{Driver, WindowEvent, initial_driver, lemma_on_events_snoc, on_events_spec};
use crate::run::{
    Action, ActionKind, Status, Turn, count_kind, delivered_events, deliveries,
    launch_actions, lemma_count_kind_add, lemma_deliveries, lemma_launch_prefix,
    lemma_projections_add, lemma_run_exhausted, lemma_run_extend, lemma_run_stops,
    lemma_turn_actions, rebuild_configs, run_actions, run_consumed, run_driver, run_status,
    turn_actions,
};

verus! {

/// What a library user implements to be drawn by the harness. The harness
/// knows nothing of what is inside a scene; it only promises when each method
/// is called: `new` exactly once before the loop starts, `event` for every
/// window event before the driver's own handling, `draw` exactly once per
/// successfully acquired frame, after any pending swapchain rebuild.
pub trait Scene: Sized {
    /// Arguments handed through [`launch`] to the constructor.
    type Args;

    /// Create the scene; setup work happens here, once, before the loop.
    fn new(args: Self::Args) -> Self;

    /// Record the drawing for one frame; the harness submits afterwards.
    fn draw(&mut self);

    /// (Optional) handle one window event, before the driver's own handling.
    fn event(&mut self, _event: &WindowEvent) {
    }
}

/// Everything observable that one launch did, in the order it did it.
#[derive(Debug)]
pub struct Trace {
    /// Every event delivered to the scene, in order.
    pub delivered: Vec<WindowEvent>,
    /// The configuration of each resize-triggered rebuild, in order.
    pub rebuilds: Vec<SwapchainConfig>,
    /// How many frames the scene drew.
    pub draws: usize,
    /// How many command buffers were submitted to the queue.
    pub submits: usize,
    /// How many frame acquisitions were attempted.
    pub acquires: usize,
    /// How many turns ran before control returned.
    pub turns: usize,
    /// Why control returned.
    pub status: Status,
    /// The driver state at the end: its swapchain is the live one.
    pub driver: Driver,
}

/// Launch a scene over a script of turns: build the startup swapchain for
/// `size`, construct the scene once, then take the turns in order — deliver
/// every event to the scene and then to the driver, and, unless a close
/// request ended the loop, rebuild at most once, acquire a frame, and on
/// success have the scene draw and submit the result. Control returns when
/// the script runs out, a close request is seen, or a frame is lost; the
/// returned trace is exactly the run model's account of the launch.
pub fn launch<S: Scene>(args: S::Args, size: Extent, script: &Vec<Turn>) -> (r: (S, Trace))
    ensures
        r.1.delivered@ == delivered_events(launch_actions(size, script@)),
        r.1.rebuilds@ == rebuild_configs(launch_actions(size, script@)),
        r.1.draws as int == count_kind(launch_actions(size, script@), ActionKind::Draw),
        r.1.submits as int == count_kind(launch_actions(size, script@), ActionKind::Submit),
        r.1.acquires as int == count_kind(launch_actions(size, script@), ActionKind::Acquire),
        r.1.turns as int == run_consumed(initial_driver(size), script@),
        r.1.status == run_status(initial_driver(size), script@),
        r.1.driver == run_driver(initial_driver(size), script@),
{
    let ghost d0 = initial_driver(size);
    let mut driver = Driver::new(size);
    let mut scene = S::new(args);
    let mut delivered: Vec<WindowEvent> = Vec::new();
    let mut rebuilds: Vec<SwapchainConfig> = Vec::new();
    let mut draws: usize = 0;
    let mut submits: usize = 0;
    let mut acquires: usize = 0;
    let mut i: usize = 0;
    proof {
        assert(script@.take(0) =~= Seq::<Turn>::empty());
        assert(run_actions(d0, Seq::<Turn>::empty()) == Seq::<Action>::empty());
        assert(delivered_events(Seq::<Action>::empty()) == Seq::<WindowEvent>::empty());
        assert(rebuild_configs(Seq::<Action>::empty()) == Seq::<SwapchainConfig>::empty());
        assert(count_kind(Seq::<Action>::empty(), ActionKind::Draw) == 0);
        assert(count_kind(Seq::<Action>::empty(), ActionKind::Submit) == 0);
        assert(count_kind(Seq::<Action>::empty(), ActionKind::Acquire) == 0);
    }
    while i < script.len()
        invariant
            i <= script.len(),
            d0 == initial_driver(size),
            run_status(d0, script@.take(i as int)) == Status::Exhausted,
            driver == run_driver(d0, script@.take(i as int)),
            delivered@ == delivered_events(run_actions(d0, script@.take(i as int))),
            rebuilds@ == rebuild_configs(run_actions(d0, script@.take(i as int))),
            draws as int == count_kind(run_actions(d0, script@.take(i as int)), ActionKind::Draw),
            submits as int == count_kind(
                run_actions(d0, script@.take(i as int)),
                ActionKind::Submit,
            ),
            acquires as int == count_kind(
                run_actions(d0, script@.take(i as int)),
                ActionKind::Acquire,
            ),
            draws <= i,
            submits <= i,
            acquires <= i,
        decreases script.len() - i,
    {
        let t = &script[i];
        let ghost d_enter = driver;
        let ghost delivered0 = delivered@;
        let mut j: usize = 0;
        while j < t.events.len()
            invariant
                j <= t.events.len(),
                driver == on_events_spec(d_enter, t.events@.take(j as int)),
                delivered@ == delivered0 + t.events@.take(j as int),
            decreases t.events.len() - j,
        {
            let e = t.events[j];
            scene.event(&e);
            driver.on_event(&e);
            delivered.push(e);
            proof {
                lemma_on_events_snoc(d_enter, t.events@.take(j as int), t.events@[j as int]);
                assert(t.events@.take(j + 1) =~= t.events@.take(j as int).push(
                    t.events@[j as int],
                ));
                assert(delivered0 + t.events@.take(j + 1) =~= (delivered0 + t.events@.take(
                    j as int,
                )).push(t.events@[j as int]));
            }
            j = j + 1;
        }
        proof {
            assert(t.events@.take(t.events@.len() as int) =~= t.events@);
            assert(*t == script@[i as int]);
        }
        if driver.should_exit() {
            proof {
                lemma_run_stops(d0, script@, i as int);
                let prefix = run_actions(d0, script@.take(i as int));
                let es = t.events@;
                assert(turn_actions(d_enter, script@[i as int]) == deliveries(es));
                lemma_projections_add(prefix, deliveries(es));
                lemma_deliveries(es, ActionKind::Draw);
                lemma_deliveries(es, ActionKind::Submit);
                lemma_deliveries(es, ActionKind::Acquire);
                lemma_count_kind_add(prefix, deliveries(es), ActionKind::Draw);
                lemma_count_kind_add(prefix, deliveries(es), ActionKind::Submit);
                lemma_count_kind_add(prefix, deliveries(es), ActionKind::Acquire);
                assert(rebuild_configs(prefix) + Seq::<SwapchainConfig>::empty() =~= rebuild_configs(
                    prefix,
                ));
                lemma_launch_prefix(size, script@, ActionKind::Draw);
                lemma_launch_prefix(size, script@, ActionKind::Submit);
                lemma_launch_prefix(size, script@, ActionKind::Acquire);
            }
            let tr = Trace {
                delivered,
                rebuilds,
                draws,
                submits,
                acquires,
                turns: i + 1,
                status: Status::Closed,
                driver,
            };
            return (scene, tr);
        }
        let rebuild = driver.prepare_frame(t.size);
        match rebuild {
            Some(c) => {
                rebuilds.push(c);
            }
            None => {}
        }
        acquires = acquires + 1;
        proof {
            let prefix = run_actions(d0, script@.take(i as int));
            let acts = turn_actions(d_enter, script@[i as int]);
            lemma_turn_actions(d_enter, script@[i as int], ActionKind::Draw);
            lemma_turn_actions(d_enter, script@[i as int], ActionKind::Submit);
            lemma_turn_actions(d_enter, script@[i as int], ActionKind::Acquire);
            lemma_projections_add(prefix, acts);
            lemma_count_kind_add(prefix, acts, ActionKind::Draw);
            lemma_count_kind_add(prefix, acts, ActionKind::Submit);
            lemma_count_kind_add(prefix, acts, ActionKind::Acquire);
            assert(delivered0 + t.events@ =~= delivered_events(prefix) + delivered_events(acts));
            assert(rebuilds@ =~= rebuild_configs(prefix) + rebuild_configs(acts));
        }
        if t.frame_acquired {
            scene.draw();
            draws = draws + 1;
            submits = submits + 1;
            proof {
                lemma_run_extend(d0, script@, i as int);
            }
            i = i + 1;
        } else {
            proof {
                lemma_run_stops(d0, script@, i as int);
                lemma_launch_prefix(size, script@, ActionKind::Draw);
                lemma_launch_prefix(size, script@, ActionKind::Submit);
                lemma_launch_prefix(size, script@, ActionKind::Acquire);
            }
            let tr = Trace {
                delivered,
                rebuilds,
                draws,
                submits,
                acquires,
                turns: i + 1,
                status: Status::Lost,
                driver,
            };
            return (scene, tr);
        }
    }
    proof {
        assert(script@.take(script@.len() as int) =~= script@);
        lemma_run_exhausted(d0, script@);
        lemma_launch_prefix(size, script@, ActionKind::Draw);
        lemma_launch_prefix(size, script@, ActionKind::Submit);
        lemma_launch_prefix(size, script@, ActionKind::Acquire);
    }
    let tr = Trace {
        delivered,
        rebuilds,
        draws,
        submits,
        acquires,
        turns: i,
        status: Status::Exhausted,
        driver,
    };
    (scene, tr)
}

} // verus!
