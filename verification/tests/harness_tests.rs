use scene_harness::config::{
    configure, Extent, PresentMode, SwapchainConfig, TextureFormat, TextureUsage,
};
use scene_harness::driver::{Driver, WindowEvent};
use scene_harness::launcher::{launch, Scene, Trace};
use scene_harness::run::{Status, Turn};

/// A scene that records what the harness does to it.
struct Probe {
    log: Vec<&'static str>,
    draws: usize,
    events: Vec<WindowEvent>,
}

impl Scene for Probe {
    type Args = ();

    fn new(_args: ()) -> Self {
        Probe { log: vec!["construct"], draws: 0, events: Vec::new() }
    }

    fn draw(&mut self) {
        self.draws += 1;
        self.log.push("draw");
    }

    fn event(&mut self, event: &WindowEvent) {
        self.events.push(*event);
        self.log.push("event");
    }
}

fn ext(w: u32, h: u32) -> Extent {
    Extent { width: w, height: h }
}

fn cfg(w: u32, h: u32) -> SwapchainConfig {
    configure(ext(w, h))
}

fn turn(events: Vec<WindowEvent>, w: u32, h: u32, frame_acquired: bool) -> Turn {
    Turn { events, size: ext(w, h), frame_acquired }
}

fn run_probe(size: Extent, script: Vec<Turn>) -> (Probe, Trace) {
    launch::<Probe>((), size, &script)
}

#[test]
fn configure_uses_fixed_format() {
    let c = configure(ext(800, 600));
    assert_eq!(c.width, 800);
    assert_eq!(c.height, 600);
    assert!(c.format == TextureFormat::Bgra8UnormSrgb);
    assert!(c.usage == TextureUsage::OutputAttachment);
    assert!(c.present_mode == PresentMode::Mailbox);
}

#[test]
fn rebuild_with_unchanged_size_is_identical() {
    let a = configure(ext(640, 480));
    let b = configure(ext(640, 480));
    assert_eq!(a, b);
    let c = configure(ext(641, 480));
    assert!(a != c);
}

#[test]
fn driver_flags_follow_events() {
    let mut d = Driver::new(ext(800, 600));
    assert_eq!(d.swapchain, cfg(800, 600));
    assert!(!d.resized && !d.exiting);
    d.on_event(&WindowEvent::Input(7));
    assert!(!d.resized && !d.exiting);
    d.on_event(&WindowEvent::Resized(ext(5, 5)));
    assert!(d.resized);
    assert_eq!(d.swapchain, cfg(800, 600));
    d.on_event(&WindowEvent::CloseRequested);
    assert!(d.exiting);
    assert!(d.should_exit());
}

#[test]
fn prepare_frame_rebuilds_once_then_rests() {
    let mut d = Driver::new(ext(800, 600));
    d.on_event(&WindowEvent::Resized(ext(5, 5)));
    let first = d.prepare_frame(ext(1024, 768));
    assert_eq!(first, Some(cfg(1024, 768)));
    assert_eq!(d.swapchain, cfg(1024, 768));
    assert!(!d.resized);
    let second = d.prepare_frame(ext(1024, 768));
    assert_eq!(second, None);
    assert_eq!(d.swapchain, cfg(1024, 768));
}

#[test]
fn empty_script_only_builds_and_constructs() {
    let (scene, trace) = run_probe(ext(800, 600), vec![]);
    assert!(trace.status == Status::Exhausted);
    assert_eq!(trace.turns, 0);
    assert_eq!(trace.draws, 0);
    assert_eq!(trace.acquires, 0);
    assert!(trace.delivered.is_empty());
    assert!(trace.rebuilds.is_empty());
    assert_eq!(trace.driver.swapchain, cfg(800, 600));
    assert_eq!(scene.log, vec!["construct"]);
}

#[test]
fn steady_run_draws_once_per_turn() {
    let script = vec![
        turn(vec![], 800, 600, true),
        turn(vec![WindowEvent::Input(1)], 800, 600, true),
        turn(vec![], 800, 600, true),
    ];
    let (scene, trace) = run_probe(ext(800, 600), script);
    assert_eq!(trace.draws, 3);
    assert_eq!(trace.submits, 3);
    assert_eq!(trace.acquires, 3);
    assert_eq!(trace.turns, 3);
    assert!(trace.rebuilds.is_empty());
    assert!(trace.status == Status::Exhausted);
    assert_eq!(trace.driver.swapchain, cfg(800, 600));
    assert_eq!(scene.draws, 3);
}

#[test]
fn many_resizes_coalesce_into_one_rebuild() {
    let script = vec![turn(
        vec![
            WindowEvent::Resized(ext(10, 10)),
            WindowEvent::Resized(ext(20, 20)),
            WindowEvent::Resized(ext(30, 30)),
        ],
        1024,
        768,
        true,
    )];
    let (scene, trace) = run_probe(ext(800, 600), script);
    // one rebuild only, with the size sampled at drain time, not from any event
    assert_eq!(trace.rebuilds, vec![cfg(1024, 768)]);
    assert_eq!(trace.draws, 1);
    assert_eq!(trace.driver.swapchain, cfg(1024, 768));
    // the scene still saw every resize event
    assert_eq!(scene.events.len(), 3);
}

#[test]
fn resize_then_two_more_frames() {
    let script = vec![
        turn(vec![WindowEvent::Resized(ext(1024, 768))], 1024, 768, true),
        turn(vec![], 1024, 768, true),
        turn(vec![], 1024, 768, true),
    ];
    let (_, trace) = run_probe(ext(800, 600), script);
    assert_eq!(trace.rebuilds, vec![cfg(1024, 768)]);
    assert_eq!(trace.draws, 3);
    assert!(trace.status == Status::Exhausted);
    assert_eq!(trace.driver.swapchain, cfg(1024, 768));
}

#[test]
fn rebuilding_twice_with_same_size_gives_equal_configs() {
    let script = vec![
        turn(vec![WindowEvent::Resized(ext(1, 1))], 640, 480, true),
        turn(vec![WindowEvent::Resized(ext(2, 2))], 640, 480, true),
    ];
    let (_, trace) = run_probe(ext(800, 600), script);
    assert_eq!(trace.rebuilds.len(), 2);
    assert_eq!(trace.rebuilds[0], trace.rebuilds[1]);
    assert_eq!(trace.rebuilds[0], cfg(640, 480));
}

#[test]
fn construct_happens_once_before_first_draw() {
    let script = vec![
        turn(vec![WindowEvent::Resized(ext(1, 1))], 300, 200, true),
        turn(vec![], 300, 200, true),
    ];
    let (scene, trace) = run_probe(ext(800, 600), script);
    assert_eq!(scene.log.iter().filter(|s| **s == "construct").count(), 1);
    assert_eq!(scene.log[0], "construct");
    assert_eq!(trace.draws, 2);
}

#[test]
fn lost_frame_draws_nothing() {
    let script = vec![turn(vec![WindowEvent::Input(9)], 800, 600, false)];
    let (scene, trace) = run_probe(ext(800, 600), script);
    assert!(trace.status == Status::Lost);
    assert_eq!(trace.acquires, 1);
    assert_eq!(trace.draws, 0);
    assert_eq!(trace.submits, 0);
    assert_eq!(trace.turns, 1);
    assert_eq!(scene.draws, 0);
}

#[test]
fn close_terminates_without_extra_acquisition() {
    let script = vec![turn(vec![WindowEvent::CloseRequested], 800, 600, true)];
    let (scene, trace) = run_probe(ext(800, 600), script);
    assert!(trace.status == Status::Closed);
    assert_eq!(trace.acquires, 0);
    assert_eq!(trace.draws, 0);
    assert_eq!(trace.turns, 1);
    assert_eq!(trace.delivered, vec![WindowEvent::CloseRequested]);
    assert!(trace.rebuilds.is_empty());
    assert_eq!(scene.draws, 0);
}

#[test]
fn close_completes_its_turn_and_delivers_nothing_after() {
    let first = vec![
        WindowEvent::Input(1),
        WindowEvent::CloseRequested,
        WindowEvent::Input(2),
    ];
    let script = vec![
        turn(first.clone(), 800, 600, true),
        turn(vec![WindowEvent::Input(3)], 800, 600, true),
    ];
    let (scene, trace) = run_probe(ext(800, 600), script);
    assert!(trace.status == Status::Closed);
    assert_eq!(trace.turns, 1);
    // every event of the closing turn was still delivered, none afterwards
    assert_eq!(trace.delivered, first);
    assert_eq!(scene.events, first);
    assert_eq!(trace.draws, 0);
}

#[test]
fn close_after_successful_frames_keeps_their_submissions() {
    let script = vec![
        turn(vec![], 800, 600, true),
        turn(vec![WindowEvent::CloseRequested], 800, 600, true),
        turn(vec![], 800, 600, true),
    ];
    let (scene, trace) = run_probe(ext(800, 600), script);
    assert!(trace.status == Status::Closed);
    assert_eq!(trace.turns, 2);
    assert_eq!(trace.draws, 1);
    assert_eq!(trace.submits, 1);
    assert_eq!(trace.acquires, 1);
    assert_eq!(scene.draws, 1);
}

#[test]
fn scene_sees_events_in_order() {
    let script = vec![turn(
        vec![WindowEvent::Input(5), WindowEvent::Input(6), WindowEvent::Resized(ext(9, 9))],
        900,
        900,
        true,
    )];
    let (scene, trace) = run_probe(ext(800, 600), script);
    assert_eq!(
        scene.events,
        vec![WindowEvent::Input(5), WindowEvent::Input(6), WindowEvent::Resized(ext(9, 9))]
    );
    assert_eq!(trace.delivered, scene.events);
}
