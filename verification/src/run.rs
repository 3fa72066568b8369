//! A model of whole runs of the event loop: what the loop observably does,
//! turn by turn, as a sequence of actions, and the laws that hold of every
//! run — resize coalescing, one construction before any work, one draw per
//! acquired frame, and termination on a close request.

use vstd::prelude::*;
use crate::config::{Extent, SwapchainConfig, configure_spec};
use crate::driver::{
    Driver, WindowEvent, drained_spec, has_close, has_resize, initial_driver,
    lemma_on_events_spec, on_events_spec,
};

verus! {

/// One turn of the event loop, as the platform presents it: the window events
/// delivered during the turn, the window's physical size once the events are
/// exhausted (drain time), and whether the swapchain yields a frame when one
/// is asked for.
#[derive(PartialEq, Eq, Debug)]
pub struct Turn {
    pub events: Vec<WindowEvent>,
    pub size: Extent,
    pub frame_acquired: bool,
}

/// An observable step the harness takes, in the order it takes them.
#[derive(Clone, Copy, PartialEq, Eq, Structural, Debug)]
pub enum Action {
    /// The startup swapchain build.
    Build(SwapchainConfig),
    /// The scene was constructed.
    Construct,
    /// A window event was delivered to the scene.
    Deliver(WindowEvent),
    /// A resize-triggered swapchain rebuild.
    Rebuild(SwapchainConfig),
    /// A frame acquisition was attempted.
    Acquire,
    /// The scene recorded its drawing for an acquired frame.
    Draw,
    /// The recorded commands were submitted to the queue.
    Submit,
}

/// The shape of an action, for counting.
#[derive(Clone, Copy, PartialEq, Eq, Structural, Debug)]
pub enum ActionKind {
    Build,
    Construct,
    Deliver,
    Rebuild,
    Acquire,
    Draw,
    Submit,
}

/// Why the loop returned control.
#[derive(Clone, Copy, PartialEq, Eq, Structural, Debug)]
pub enum Status {
    /// The scripted turns ran out with the loop still willing to go on.
    Exhausted,
    /// A close request terminated the loop.
    Closed,
    /// A frame acquisition failed; the loop reports it instead of drawing.
    Lost,
}

pub open spec fn kind_of(a: Action) -> ActionKind {
    match a {
        Action::Build(_) => ActionKind::Build,
        Action::Construct => ActionKind::Construct,
        Action::Deliver(_) => ActionKind::Deliver,
        Action::Rebuild(_) => ActionKind::Rebuild,
        Action::Acquire => ActionKind::Acquire,
        Action::Draw => ActionKind::Draw,
        Action::Submit => ActionKind::Submit,
    }
}

/// How many actions of kind `k` a sequence holds.
pub open spec fn count_kind(acts: Seq<Action>, k: ActionKind) -> int
    decreases acts.len(),
{
    if acts.len() == 0 {
        0
    } else {
        (if kind_of(acts[0]) == k {
            1int
        } else {
            0int
        }) + count_kind(acts.skip(1), k)
    }
}

/// The events delivered to the scene, in order.
pub open spec fn delivered_events(acts: Seq<Action>) -> Seq<WindowEvent>
    decreases acts.len(),
{
    if acts.len() == 0 {
        Seq::<WindowEvent>::empty()
    } else {
        (match acts[0] {
            Action::Deliver(e) => seq![e],
            _ => Seq::<WindowEvent>::empty(),
        }) + delivered_events(acts.skip(1))
    }
}

/// The configurations of the resize-triggered rebuilds, in order.
pub open spec fn rebuild_configs(acts: Seq<Action>) -> Seq<SwapchainConfig>
    decreases acts.len(),
{
    if acts.len() == 0 {
        Seq::<SwapchainConfig>::empty()
    } else {
        (match acts[0] {
            Action::Rebuild(c) => seq![c],
            _ => Seq::<SwapchainConfig>::empty(),
        }) + rebuild_configs(acts.skip(1))
    }
}

/// The actions of delivering a batch of events, one per event.
pub open spec fn deliveries(es: Seq<WindowEvent>) -> Seq<Action>
    decreases es.len(),
{
    if es.len() == 0 {
        Seq::<Action>::empty()
    } else {
        seq![Action::Deliver(es[0])] + deliveries(es.skip(1))
    }
}

/// The actions of a turn's drain phase, entered with driver state `d`: one
/// rebuild if and only if a resize is pending, then a frame acquisition, then
/// — only if a frame came back — one draw and one submission.
pub open spec fn drain_actions(d: Driver, size: Extent, frame_acquired: bool) -> Seq<Action> {
    (if d.resized {
        seq![Action::Rebuild(configure_spec(size))]
    } else {
        Seq::<Action>::empty()
    }) + seq![Action::Acquire] + (if frame_acquired {
        seq![Action::Draw, Action::Submit]
    } else {
        Seq::<Action>::empty()
    })
}

/// The actions of one whole turn: every event is delivered to the scene; then,
/// unless a close request was seen (in that turn or an earlier one), the drain
/// phase runs.
pub open spec fn turn_actions(d: Driver, t: Turn) -> Seq<Action> {
    let d1 = on_events_spec(d, t.events@);
    if d1.exiting {
        deliveries(t.events@)
    } else {
        deliveries(t.events@) + drain_actions(d1, t.size, t.frame_acquired)
    }
}

/// The driver state a turn leaves behind.
pub open spec fn turn_next(d: Driver, t: Turn) -> Driver {
    let d1 = on_events_spec(d, t.events@);
    if d1.exiting {
        d1
    } else {
        drained_spec(d1, t.size)
    }
}

/// Whether the loop goes on after this turn: no close request seen, and the
/// frame acquisition succeeded.
pub open spec fn turn_continues(d: Driver, t: Turn) -> bool {
    !on_events_spec(d, t.events@).exiting && t.frame_acquired
}

/// The actions of a whole run from driver state `d`: turns are taken in order
/// until one terminates the loop, the script runs out, or a frame acquisition
/// fails.
pub open spec fn run_actions(d: Driver, turns: Seq<Turn>) -> Seq<Action>
    decreases turns.len(),
{
    if turns.len() == 0 {
        Seq::<Action>::empty()
    } else if turn_continues(d, turns[0]) {
        turn_actions(d, turns[0]) + run_actions(turn_next(d, turns[0]), turns.skip(1))
    } else {
        turn_actions(d, turns[0])
    }
}

/// The driver state a whole run ends in.
pub open spec fn run_driver(d: Driver, turns: Seq<Turn>) -> Driver
    decreases turns.len(),
{
    if turns.len() == 0 {
        d
    } else if turn_continues(d, turns[0]) {
        run_driver(turn_next(d, turns[0]), turns.skip(1))
    } else {
        turn_next(d, turns[0])
    }
}

/// How many turns a run consumes before returning control.
pub open spec fn run_consumed(d: Driver, turns: Seq<Turn>) -> int
    decreases turns.len(),
{
    if turns.len() == 0 {
        0
    } else if turn_continues(d, turns[0]) {
        1 + run_consumed(turn_next(d, turns[0]), turns.skip(1))
    } else {
        1
    }
}

/// Why a run returns control.
pub open spec fn run_status(d: Driver, turns: Seq<Turn>) -> Status
    decreases turns.len(),
{
    if turns.len() == 0 {
        Status::Exhausted
    } else if on_events_spec(d, turns[0].events@).exiting {
        Status::Closed
    } else if !turns[0].frame_acquired {
        Status::Lost
    } else {
        run_status(turn_next(d, turns[0]), turns.skip(1))
    }
}

/// How many turns of a run reach the drain phase and get a frame back —
/// the successfully acquired frames.
pub open spec fn frames_acquired(d: Driver, turns: Seq<Turn>) -> int
    decreases turns.len(),
{
    if turns.len() == 0 {
        0
    } else if on_events_spec(d, turns[0].events@).exiting {
        0
    } else if !turns[0].frame_acquired {
        0
    } else {
        1 + frames_acquired(turn_next(d, turns[0]), turns.skip(1))
    }
}

/// Everything the harness does from startup on: the startup swapchain build,
/// the one scene construction, then the run of the loop.
pub open spec fn launch_actions(size: Extent, turns: Seq<Turn>) -> Seq<Action> {
    seq![Action::Build(configure_spec(size)), Action::Construct] + run_actions(
        initial_driver(size),
        turns,
    )
}

/// Counting actions distributes over concatenation.
pub proof fn lemma_count_kind_add(a: Seq<Action>, b: Seq<Action>, k: ActionKind)
    ensures
        count_kind(a + b, k) == count_kind(a, k) + count_kind(b, k),
    decreases a.len(),
{
    if a.len() == 0 {
        assert(a + b =~= b);
    } else {
        assert((a + b).skip(1) =~= a.skip(1) + b);
        assert((a + b)[0] == a[0]);
        lemma_count_kind_add(a.skip(1), b, k);
    }
}

/// The delivered events of a concatenation are the concatenated delivered
/// events, and likewise for the rebuild configurations.
pub proof fn lemma_projections_add(a: Seq<Action>, b: Seq<Action>)
    ensures
        delivered_events(a + b) == delivered_events(a) + delivered_events(b),
        rebuild_configs(a + b) == rebuild_configs(a) + rebuild_configs(b),
    decreases a.len(),
{
    if a.len() == 0 {
        assert(a + b =~= b);
        assert(delivered_events(a) + delivered_events(b) =~= delivered_events(b));
        assert(rebuild_configs(a) + rebuild_configs(b) =~= rebuild_configs(b));
    } else {
        assert((a + b).skip(1) =~= a.skip(1) + b);
        assert((a + b)[0] == a[0]);
        lemma_projections_add(a.skip(1), b);
        assert(delivered_events(a + b) =~= delivered_events(a) + delivered_events(b));
        assert(rebuild_configs(a + b) =~= rebuild_configs(a) + rebuild_configs(b));
    }
}

/// What a one-action sequence counts and projects to.
pub proof fn lemma_one_action(a: Action, k: ActionKind)
    ensures
        count_kind(seq![a], k) == (if kind_of(a) == k {
            1int
        } else {
            0int
        }),
        delivered_events(seq![a]) == (match a {
            Action::Deliver(e) => seq![e],
            _ => Seq::<WindowEvent>::empty(),
        }),
        rebuild_configs(seq![a]) == (match a {
            Action::Rebuild(c) => seq![c],
            _ => Seq::<SwapchainConfig>::empty(),
        }),
{
    assert(seq![a].skip(1) =~= Seq::<Action>::empty());
    assert(seq![a][0] == a);
    assert(delivered_events(Seq::<Action>::empty()) == Seq::<WindowEvent>::empty());
    assert(rebuild_configs(Seq::<Action>::empty()) == Seq::<SwapchainConfig>::empty());
    assert(count_kind(Seq::<Action>::empty(), k) == 0);
    match a {
        Action::Deliver(e) => {
            assert(delivered_events(seq![a]) =~= seq![e]);
            assert(rebuild_configs(seq![a]) =~= Seq::<SwapchainConfig>::empty());
        }
        Action::Rebuild(c) => {
            assert(delivered_events(seq![a]) =~= Seq::<WindowEvent>::empty());
            assert(rebuild_configs(seq![a]) =~= seq![c]);
        }
        _ => {
            assert(delivered_events(seq![a]) =~= Seq::<WindowEvent>::empty());
            assert(rebuild_configs(seq![a]) =~= Seq::<SwapchainConfig>::empty());
        }
    }
}

/// Delivering a batch of events delivers exactly those events: one action per
/// event, no rebuild among them, nothing else among them.
pub proof fn lemma_deliveries(es: Seq<WindowEvent>, k: ActionKind)
    ensures
        count_kind(deliveries(es), k) == (if k == ActionKind::Deliver {
            es.len() as int
        } else {
            0int
        }),
        delivered_events(deliveries(es)) == es,
        rebuild_configs(deliveries(es)) == Seq::<SwapchainConfig>::empty(),
    decreases es.len(),
{
    if es.len() == 0 {
        assert(delivered_events(deliveries(es)) =~= es);
    } else {
        lemma_deliveries(es.skip(1), k);
        lemma_count_kind_add(seq![Action::Deliver(es[0])], deliveries(es.skip(1)), k);
        lemma_projections_add(seq![Action::Deliver(es[0])], deliveries(es.skip(1)));
        lemma_one_action(Action::Deliver(es[0]), k);
        assert(seq![es[0]] + es.skip(1) =~= es);
        assert(rebuild_configs(deliveries(es)) =~= Seq::<SwapchainConfig>::empty());
    }
}

/// What a turn's drain phase counts and projects to: one rebuild — with the
/// drain-time size — exactly when a resize is pending, one acquisition, and
/// one draw and one submission exactly when the frame came back.
pub proof fn lemma_drain_actions(d: Driver, size: Extent, frame_acquired: bool, k: ActionKind)
    ensures
        count_kind(drain_actions(d, size, frame_acquired), k) == (if d.resized && k
            == ActionKind::Rebuild {
            1int
        } else {
            0int
        }) + (if k == ActionKind::Acquire {
            1int
        } else {
            0int
        }) + (if frame_acquired && (k == ActionKind::Draw || k == ActionKind::Submit) {
            1int
        } else {
            0int
        }),
        delivered_events(drain_actions(d, size, frame_acquired)) == Seq::<WindowEvent>::empty(),
        rebuild_configs(drain_actions(d, size, frame_acquired)) == (if d.resized {
            seq![configure_spec(size)]
        } else {
            Seq::<SwapchainConfig>::empty()
        }),
{
    let reb = if d.resized {
        seq![Action::Rebuild(configure_spec(size))]
    } else {
        Seq::<Action>::empty()
    };
    let tail = if frame_acquired {
        seq![Action::Draw, Action::Submit]
    } else {
        Seq::<Action>::empty()
    };
    lemma_one_action(Action::Acquire, k);
    if d.resized {
        lemma_one_action(Action::Rebuild(configure_spec(size)), k);
        lemma_one_action(Action::Rebuild(configure_spec(size)), ActionKind::Rebuild);
    }
    if frame_acquired {
        lemma_one_action(Action::Draw, k);
        lemma_one_action(Action::Submit, k);
        assert(tail.skip(1) =~= seq![Action::Submit]);
        assert(delivered_events(tail) =~= delivered_events(seq![Action::Draw])
            + delivered_events(seq![Action::Submit])) by {
            lemma_projections_add(seq![Action::Draw], seq![Action::Submit]);
            assert(seq![Action::Draw] + seq![Action::Submit] =~= tail);
        }
        assert(rebuild_configs(tail) =~= Seq::<SwapchainConfig>::empty());
        assert(count_kind(tail, k) == count_kind(seq![Action::Draw], k) + count_kind(
            seq![Action::Submit],
            k,
        )) by {
            lemma_count_kind_add(seq![Action::Draw], seq![Action::Submit], k);
            assert(seq![Action::Draw] + seq![Action::Submit] =~= tail);
        }
    }
    lemma_count_kind_add(reb, seq![Action::Acquire], k);
    lemma_count_kind_add(reb + seq![Action::Acquire], tail, k);
    lemma_projections_add(reb, seq![Action::Acquire]);
    lemma_projections_add(reb + seq![Action::Acquire], tail);
    assert(delivered_events(drain_actions(d, size, frame_acquired)) =~= Seq::<
        WindowEvent,
    >::empty());
    assert(rebuild_configs(drain_actions(d, size, frame_acquired)) =~= (if d.resized {
        seq![configure_spec(size)]
    } else {
        Seq::<SwapchainConfig>::empty()
    }));
}

/// What one whole turn counts and projects to: every event of the turn is
/// delivered, exactly once, in order; and unless the loop is terminating, the
/// drain phase contributes its one coalesced rebuild, one acquisition, and —
/// for an acquired frame — one draw and one submission.
pub proof fn lemma_turn_actions(d: Driver, t: Turn, k: ActionKind)
    ensures
        delivered_events(turn_actions(d, t)) == t.events@,
        rebuild_configs(turn_actions(d, t)) == (if !on_events_spec(d, t.events@).exiting
            && on_events_spec(d, t.events@).resized {
            seq![configure_spec(t.size)]
        } else {
            Seq::<SwapchainConfig>::empty()
        }),
        count_kind(turn_actions(d, t), k) == (if k == ActionKind::Deliver {
            t.events@.len() as int
        } else {
            0int
        }) + (if on_events_spec(d, t.events@).exiting {
            0int
        } else {
            (if on_events_spec(d, t.events@).resized && k == ActionKind::Rebuild {
                1int
            } else {
                0int
            }) + (if k == ActionKind::Acquire {
                1int
            } else {
                0int
            }) + (if t.frame_acquired && (k == ActionKind::Draw || k == ActionKind::Submit) {
                1int
            } else {
                0int
            })
        }),
{
    let d1 = on_events_spec(d, t.events@);
    lemma_deliveries(t.events@, k);
    if !d1.exiting {
        let drain = drain_actions(d1, t.size, t.frame_acquired);
        lemma_drain_actions(d1, t.size, t.frame_acquired, k);
        lemma_count_kind_add(deliveries(t.events@), drain, k);
        lemma_projections_add(deliveries(t.events@), drain);
        assert(t.events@ + Seq::<WindowEvent>::empty() =~= t.events@);
        if d1.resized {
            assert(Seq::<SwapchainConfig>::empty() + seq![configure_spec(t.size)]
                =~= seq![configure_spec(t.size)]);
        } else {
            assert(Seq::<SwapchainConfig>::empty() + Seq::<SwapchainConfig>::empty() =~= Seq::<
                SwapchainConfig,
            >::empty());
        }
    }
}

/// A run whose script ran out consumed every turn.
pub proof fn lemma_run_exhausted(d: Driver, turns: Seq<Turn>)
    requires
        run_status(d, turns) == Status::Exhausted,
    ensures
        run_consumed(d, turns) == turns.len(),
    decreases turns.len(),
{
    if turns.len() > 0 {
        lemma_run_exhausted(turn_next(d, turns[0]), turns.skip(1));
    }
}

/// Extending a run that has not stopped by one more turn appends that turn's
/// actions, steps the driver once, and stops — or goes on — as that one turn
/// decides.
pub proof fn lemma_run_extend(d: Driver, turns: Seq<Turn>, i: int)
    requires
        0 <= i < turns.len(),
        run_status(d, turns.take(i)) == Status::Exhausted,
    ensures
        run_actions(d, turns.take(i + 1)) == run_actions(d, turns.take(i)) + turn_actions(
            run_driver(d, turns.take(i)),
            turns[i],
        ),
        run_driver(d, turns.take(i + 1)) == turn_next(run_driver(d, turns.take(i)), turns[i]),
        run_consumed(d, turns.take(i + 1)) == i + 1,
        run_status(d, turns.take(i + 1)) == (if on_events_spec(
            run_driver(d, turns.take(i)),
            turns[i].events@,
        ).exiting {
            Status::Closed
        } else if !turns[i].frame_acquired {
            Status::Lost
        } else {
            Status::Exhausted
        }),
    decreases i,
{
    let pre = turns.take(i);
    let post = turns.take(i + 1);
    assert(post[0] == turns[0]);
    if i == 0 {
        assert(pre =~= Seq::<Turn>::empty());
        assert(post.skip(1) =~= Seq::<Turn>::empty());
        if turn_continues(d, turns[0]) {
            assert(run_actions(turn_next(d, turns[0]), post.skip(1)) == Seq::<Action>::empty());
            assert(run_driver(turn_next(d, turns[0]), post.skip(1)) == turn_next(d, turns[0]));
            assert(run_consumed(turn_next(d, turns[0]), post.skip(1)) == 0);
            assert(run_status(turn_next(d, turns[0]), post.skip(1)) == Status::Exhausted);
            assert(turn_actions(d, turns[0]) + Seq::<Action>::empty() =~= turn_actions(
                d,
                turns[0],
            ));
        }
        assert(Seq::<Action>::empty() + turn_actions(d, turns[0]) =~= turn_actions(d, turns[0]));
    } else {
        assert(pre[0] == turns[0]);
        let d1 = turn_next(d, turns[0]);
        let rest = turns.skip(1);
        assert(pre.skip(1) =~= rest.take(i - 1));
        assert(post.skip(1) =~= rest.take(i));
        assert(rest[i - 1] == turns[i]);
        lemma_run_extend(d1, rest, i - 1);
        assert((turn_actions(d, turns[0]) + run_actions(d1, rest.take(i - 1))) + turn_actions(
            run_driver(d1, rest.take(i - 1)),
            turns[i],
        ) =~= turn_actions(d, turns[0]) + (run_actions(d1, rest.take(i - 1)) + turn_actions(
            run_driver(d1, rest.take(i - 1)),
            turns[i],
        )));
    }
}

/// A run stops at the first turn that sees a close request or loses its frame:
/// that turn's actions are the run's last, the driver takes that turn's one
/// step, and nothing at all follows — in particular, no turn after it delivers
/// an event to the scene.
pub proof fn lemma_run_stops(d: Driver, turns: Seq<Turn>, i: int)
    requires
        0 <= i < turns.len(),
        run_status(d, turns.take(i)) == Status::Exhausted,
        !turn_continues(run_driver(d, turns.take(i)), turns[i]),
    ensures
        run_actions(d, turns) == run_actions(d, turns.take(i)) + turn_actions(
            run_driver(d, turns.take(i)),
            turns[i],
        ),
        run_driver(d, turns) == turn_next(run_driver(d, turns.take(i)), turns[i]),
        run_consumed(d, turns) == i + 1,
        run_status(d, turns) == (if on_events_spec(
            run_driver(d, turns.take(i)),
            turns[i].events@,
        ).exiting {
            Status::Closed
        } else {
            Status::Lost
        }),
    decreases i,
{
    let pre = turns.take(i);
    if i == 0 {
        assert(pre =~= Seq::<Turn>::empty());
        assert(Seq::<Action>::empty() + turn_actions(d, turns[0]) =~= turn_actions(d, turns[0]));
    } else {
        assert(pre[0] == turns[0]);
        let d1 = turn_next(d, turns[0]);
        let rest = turns.skip(1);
        assert(pre.skip(1) =~= rest.take(i - 1));
        assert(rest[i - 1] == turns[i]);
        lemma_run_stops(d1, rest, i - 1);
        assert((turn_actions(d, turns[0]) + run_actions(d1, rest.take(i - 1))) + turn_actions(
            run_driver(d1, rest.take(i - 1)),
            turns[i],
        ) =~= turn_actions(d, turns[0]) + (run_actions(d1, rest.take(i - 1)) + turn_actions(
            run_driver(d1, rest.take(i - 1)),
            turns[i],
        )));
    }
}

/// Delivering a batch of events makes one action per event, in order.
pub proof fn lemma_deliveries_index(es: Seq<WindowEvent>)
    ensures
        deliveries(es).len() == es.len(),
        forall|i: int|
            0 <= i < es.len() ==> deliveries(es)[i] == Action::Deliver(es[i]),
    decreases es.len(),
{
    if es.len() > 0 {
        lemma_deliveries_index(es.skip(1));
        assert forall|i: int| 0 <= i < es.len() implies deliveries(es)[i] == Action::Deliver(
            es[i],
        ) by {
            if i > 0 {
                assert(deliveries(es)[i] == deliveries(es.skip(1))[i - 1]);
                assert(es.skip(1)[i - 1] == es[i]);
            }
        }
    }
}

/// Coalescing: however many resize events arrive within one turn, a turn that
/// reaches its drain phase rebuilds the swapchain exactly once if a resize is
/// pending — with the window size sampled at drain time — and not at all
/// otherwise; and any rebuild happens before the turn's frame is drawn.
pub proof fn lemma_resize_coalescing(d: Driver, t: Turn)
    requires
        !on_events_spec(d, t.events@).exiting,
    ensures
        count_kind(turn_actions(d, t), ActionKind::Rebuild) == (if d.resized || has_resize(
            t.events@,
        ) {
            1int
        } else {
            0int
        }),
        rebuild_configs(turn_actions(d, t)) == (if d.resized || has_resize(t.events@) {
            seq![configure_spec(t.size)]
        } else {
            Seq::<SwapchainConfig>::empty()
        }),
        forall|p: int, q: int|
            0 <= p < turn_actions(d, t).len() && 0 <= q < turn_actions(d, t).len()
                && turn_actions(d, t)[p] is Rebuild && turn_actions(d, t)[q] is Draw ==> p < q,
{
    let es = t.events@;
    let d1 = on_events_spec(d, es);
    let n = es.len() as int;
    let acts = turn_actions(d, t);
    let drain = drain_actions(d1, t.size, t.frame_acquired);
    lemma_on_events_spec(d, es);
    lemma_turn_actions(d, t, ActionKind::Rebuild);
    lemma_deliveries_index(es);
    assert(acts == deliveries(es) + drain);
    if d1.resized {
        if t.frame_acquired {
            assert(drain =~= seq![
                Action::Rebuild(configure_spec(t.size)),
                Action::Acquire,
                Action::Draw,
                Action::Submit,
            ]);
        } else {
            assert(drain =~= seq![Action::Rebuild(configure_spec(t.size)), Action::Acquire]);
        }
    } else {
        if t.frame_acquired {
            assert(drain =~= seq![Action::Acquire, Action::Draw, Action::Submit]);
        } else {
            assert(drain =~= seq![Action::Acquire]);
        }
    }
    assert forall|p: int, q: int|
        0 <= p < acts.len() && 0 <= q < acts.len() && acts[p] is Rebuild
            && acts[q] is Draw implies p < q by {
        assert(p >= n) by {
            if p < n {
                assert(acts[p] == deliveries(es)[p]);
            }
        }
        assert(q >= n) by {
            if q < n {
                assert(acts[q] == deliveries(es)[q]);
            }
        }
        assert(acts[p] == drain[p - n]);
        assert(acts[q] == drain[q - n]);
    }
}

/// A run of the loop never builds a swapchain from scratch and never
/// constructs a scene: those two steps belong to startup alone.
pub proof fn lemma_run_no_setup(d: Driver, turns: Seq<Turn>)
    ensures
        count_kind(run_actions(d, turns), ActionKind::Construct) == 0,
        count_kind(run_actions(d, turns), ActionKind::Build) == 0,
    decreases turns.len(),
{
    if turns.len() > 0 {
        let acts = turn_actions(d, turns[0]);
        lemma_turn_actions(d, turns[0], ActionKind::Construct);
        lemma_turn_actions(d, turns[0], ActionKind::Build);
        if turn_continues(d, turns[0]) {
            let rest = run_actions(turn_next(d, turns[0]), turns.skip(1));
            lemma_run_no_setup(turn_next(d, turns[0]), turns.skip(1));
            lemma_count_kind_add(acts, rest, ActionKind::Construct);
            lemma_count_kind_add(acts, rest, ActionKind::Build);
        }
    }
}

/// The scene is constructed exactly once, strictly after the one startup
/// swapchain build and strictly before every draw and every resize-triggered
/// rebuild.
pub proof fn lemma_construct_once_before_work(size: Extent, turns: Seq<Turn>)
    ensures
        count_kind(launch_actions(size, turns), ActionKind::Construct) == 1,
        count_kind(launch_actions(size, turns), ActionKind::Build) == 1,
        launch_actions(size, turns)[0] == Action::Build(configure_spec(size)),
        launch_actions(size, turns)[1] == Action::Construct,
        forall|j: int|
            0 <= j < launch_actions(size, turns).len() && (launch_actions(size, turns)[j] is Draw
                || launch_actions(size, turns)[j] is Rebuild) ==> 1 < j,
{
    let pre = seq![Action::Build(configure_spec(size)), Action::Construct];
    let rest = run_actions(initial_driver(size), turns);
    let acts = launch_actions(size, turns);
    assert(pre.skip(1) =~= seq![Action::Construct]);
    lemma_one_action(Action::Construct, ActionKind::Construct);
    lemma_one_action(Action::Construct, ActionKind::Build);
    lemma_run_no_setup(initial_driver(size), turns);
    lemma_count_kind_add(pre, rest, ActionKind::Construct);
    lemma_count_kind_add(pre, rest, ActionKind::Build);
    assert(acts[0] == pre[0]);
    assert(acts[1] == pre[1]);
    assert forall|j: int|
        0 <= j < acts.len() && (acts[j] is Draw || acts[j] is Rebuild) implies 1 < j by {
        assert(acts[0] is Build);
        assert(acts[1] is Construct);
    }
}

/// A turn whose frame acquisition fails draws nothing and submits nothing.
pub proof fn lemma_no_draw_without_frame(d: Driver, t: Turn)
    requires
        !t.frame_acquired,
    ensures
        count_kind(turn_actions(d, t), ActionKind::Draw) == 0,
        count_kind(turn_actions(d, t), ActionKind::Submit) == 0,
{
    lemma_turn_actions(d, t, ActionKind::Draw);
    lemma_turn_actions(d, t, ActionKind::Submit);
}

/// Across a whole run, the scene draws exactly once per successfully acquired
/// frame, each draw is matched by exactly one submission, and no turn draws
/// more than it acquires.
pub proof fn lemma_draw_per_acquired_frame(d: Driver, turns: Seq<Turn>)
    ensures
        count_kind(run_actions(d, turns), ActionKind::Draw) == frames_acquired(d, turns),
        count_kind(run_actions(d, turns), ActionKind::Submit) == frames_acquired(d, turns),
        count_kind(run_actions(d, turns), ActionKind::Draw) <= count_kind(
            run_actions(d, turns),
            ActionKind::Acquire,
        ),
    decreases turns.len(),
{
    if turns.len() > 0 {
        let acts = turn_actions(d, turns[0]);
        lemma_turn_actions(d, turns[0], ActionKind::Draw);
        lemma_turn_actions(d, turns[0], ActionKind::Submit);
        lemma_turn_actions(d, turns[0], ActionKind::Acquire);
        if turn_continues(d, turns[0]) {
            let rest = run_actions(turn_next(d, turns[0]), turns.skip(1));
            lemma_draw_per_acquired_frame(turn_next(d, turns[0]), turns.skip(1));
            lemma_count_kind_add(acts, rest, ActionKind::Draw);
            lemma_count_kind_add(acts, rest, ActionKind::Submit);
            lemma_count_kind_add(acts, rest, ActionKind::Acquire);
        }
    }
}

/// A close request terminates the loop at the end of its own turn: every
/// event of that turn is still delivered to the scene, the turn's drain phase
/// does not run — so no further frame acquisition is attempted — and no
/// action at all follows the turn.
pub proof fn lemma_close_terminates(d: Driver, turns: Seq<Turn>, k: int)
    requires
        0 <= k < turns.len(),
        run_status(d, turns.take(k)) == Status::Exhausted,
        on_events_spec(run_driver(d, turns.take(k)), turns[k].events@).exiting,
    ensures
        run_status(d, turns) == Status::Closed,
        run_consumed(d, turns) == k + 1,
        run_actions(d, turns) == run_actions(d, turns.take(k)) + deliveries(turns[k].events@),
        delivered_events(run_actions(d, turns)) == delivered_events(run_actions(d, turns.take(k)))
            + turns[k].events@,
        count_kind(run_actions(d, turns), ActionKind::Acquire) == count_kind(
            run_actions(d, turns.take(k)),
            ActionKind::Acquire,
        ),
{
    let dk = run_driver(d, turns.take(k));
    let t = turns[k];
    lemma_run_stops(d, turns, k);
    assert(turn_actions(dk, t) == deliveries(t.events@));
    lemma_projections_add(run_actions(d, turns.take(k)), deliveries(t.events@));
    lemma_deliveries(t.events@, ActionKind::Acquire);
    lemma_count_kind_add(run_actions(d, turns.take(k)), deliveries(t.events@), ActionKind::Acquire);
}

/// A steady run — no resize, no close request, every frame acquired — keeps
/// the driver exactly as it was and draws once per turn.
proof fn lemma_steady_run_rec(d: Driver, turns: Seq<Turn>)
    requires
        !d.resized,
        !d.exiting,
        forall|i: int|
            0 <= i < turns.len() ==> {
                &&& !has_resize((#[trigger] turns[i]).events@)
                &&& !has_close(turns[i].events@)
                &&& turns[i].frame_acquired
            },
    ensures
        count_kind(run_actions(d, turns), ActionKind::Draw) == turns.len(),
        count_kind(run_actions(d, turns), ActionKind::Rebuild) == 0,
        count_kind(run_actions(d, turns), ActionKind::Build) == 0,
        run_driver(d, turns) == d,
        run_status(d, turns) == Status::Exhausted,
    decreases turns.len(),
{
    if turns.len() > 0 {
        let t = turns[0];
        let d1 = on_events_spec(d, t.events@);
        lemma_on_events_spec(d, t.events@);
        assert(d1 == d);
        assert(turn_next(d, t) == d);
        let acts = turn_actions(d, t);
        lemma_turn_actions(d, t, ActionKind::Draw);
        lemma_turn_actions(d, t, ActionKind::Rebuild);
        lemma_turn_actions(d, t, ActionKind::Build);
        assert forall|i: int|
            0 <= i < turns.skip(1).len() implies {
            &&& !has_resize((#[trigger] turns.skip(1)[i]).events@)
            &&& !has_close(turns.skip(1)[i].events@)
            &&& turns.skip(1)[i].frame_acquired
        } by {
            assert(turns.skip(1)[i] == turns[i + 1]);
        }
        lemma_steady_run_rec(d, turns.skip(1));
        let rest = run_actions(d, turns.skip(1));
        lemma_count_kind_add(acts, rest, ActionKind::Draw);
        lemma_count_kind_add(acts, rest, ActionKind::Rebuild);
        lemma_count_kind_add(acts, rest, ActionKind::Build);
    }
}

/// With no resize and no close request ever delivered and every frame
/// acquired, a launch over `n` turns draws exactly `n` times, builds the
/// swapchain exactly once — at startup, for the initial window size — never
/// rebuilds it, and ends with that same startup configuration live.
pub proof fn lemma_steady_launch(size: Extent, turns: Seq<Turn>)
    requires
        forall|i: int|
            0 <= i < turns.len() ==> {
                &&& !has_resize((#[trigger] turns[i]).events@)
                &&& !has_close(turns[i].events@)
                &&& turns[i].frame_acquired
            },
    ensures
        count_kind(launch_actions(size, turns), ActionKind::Draw) == turns.len(),
        count_kind(launch_actions(size, turns), ActionKind::Rebuild) == 0,
        count_kind(launch_actions(size, turns), ActionKind::Build) == 1,
        run_driver(initial_driver(size), turns).swapchain == configure_spec(size),
        run_status(initial_driver(size), turns) == Status::Exhausted,
{
    let d0 = initial_driver(size);
    let pre = seq![Action::Build(configure_spec(size)), Action::Construct];
    let rest = run_actions(d0, turns);
    lemma_steady_run_rec(d0, turns);
    assert(pre.skip(1) =~= seq![Action::Construct]);
    lemma_one_action(Action::Construct, ActionKind::Draw);
    lemma_one_action(Action::Construct, ActionKind::Rebuild);
    lemma_one_action(Action::Construct, ActionKind::Build);
    lemma_count_kind_add(pre, rest, ActionKind::Draw);
    lemma_count_kind_add(pre, rest, ActionKind::Rebuild);
    lemma_count_kind_add(pre, rest, ActionKind::Build);
}

/// The two startup actions deliver no event and rebuild nothing: a launch
/// projects to exactly what its run projects to, and counts one build, one
/// construction, and whatever the run counts.
pub proof fn lemma_launch_prefix(size: Extent, turns: Seq<Turn>, k: ActionKind)
    ensures
        delivered_events(launch_actions(size, turns)) == delivered_events(
            run_actions(initial_driver(size), turns),
        ),
        rebuild_configs(launch_actions(size, turns)) == rebuild_configs(
            run_actions(initial_driver(size), turns),
        ),
        count_kind(launch_actions(size, turns), k) == (if k == ActionKind::Build || k
            == ActionKind::Construct {
            1int
        } else {
            0int
        }) + count_kind(run_actions(initial_driver(size), turns), k),
{
    let b = Action::Build(configure_spec(size));
    let pre = seq![b, Action::Construct];
    let rest = run_actions(initial_driver(size), turns);
    assert(seq![b] + seq![Action::Construct] =~= pre);
    lemma_one_action(b, k);
    lemma_one_action(Action::Construct, k);
    lemma_count_kind_add(seq![b], seq![Action::Construct], k);
    lemma_projections_add(seq![b], seq![Action::Construct]);
    lemma_count_kind_add(pre, rest, k);
    lemma_projections_add(pre, rest);
    assert(delivered_events(pre) =~= Seq::<WindowEvent>::empty());
    assert(rebuild_configs(pre) =~= Seq::<SwapchainConfig>::empty());
    assert(delivered_events(pre) + delivered_events(rest) =~= delivered_events(rest));
    assert(rebuild_configs(pre) + rebuild_configs(rest) =~= rebuild_configs(rest));
}

} // verus!
