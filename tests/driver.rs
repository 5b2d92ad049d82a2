use phantoma::driver::{Command, ExitReport, FrameLoopDriver, ImageTemplate, LoopState, WindowEvent};
use phantoma::graph::{ClearColor, NodeDesc};
use phantoma::surface::{Acquire, SwapChain, SwapChainBuilder, SwapChainCall};

const A: usize = 0;
const B: usize = 1;
const PRESENT: usize = 2;

/// Node A writes image X, node B reads X, writes Y and depends on A, Present reads Y.
fn start() -> FrameLoopDriver {
    let x = 0;
    let y = 1;
    let nodes = vec![
        NodeDesc { writes: vec![x], reads: vec![], deps: vec![] },
        NodeDesc { writes: vec![y], reads: vec![x], deps: vec![A] },
        NodeDesc { writes: vec![], reads: vec![y], deps: vec![] },
    ];
    let white = ClearColor { r: 255, g: 255, b: 255, a: 255 };
    let templates = vec![ImageTemplate { samples: 1, clear: Some(white) }, ImageTemplate { samples: 1, clear: None }];
    let sc = SwapChain::build(SwapChainBuilder::new().descriptor(960, 640), 1);
    let (driver, cmd) = FrameLoopDriver::new(templates, nodes, sc).unwrap();
    match cmd {
        Command::BuildGraph { generation, images, order } => {
            assert_eq!(generation, 0);
            assert_eq!(order, vec![A, B, PRESENT]);
            assert!(images.iter().all(|i| i.width == 960 && i.height == 640));
        }
        _ => panic!("expected a graph build"),
    }
    driver
}

fn redraw(d: &mut FrameLoopDriver, acquired: Acquire) -> Vec<Command> {
    d.handle_event(WindowEvent::RedrawRequested { acquired, elapsed_ns: 1000 })
}

fn run_order(cmds: &[Command]) -> (Vec<usize>, u32, u32, u64) {
    match &cmds[0] {
        Command::RunPasses { runs, target, .. } => {
            (runs.iter().map(|r| r.node).collect(), target.width, runs[0].frame.width, runs[0].frame.frame)
        }
        _ => panic!("expected passes to run"),
    }
}

#[test]
fn three_frames_run_in_order() {
    let mut d = start();
    for f in 1..=3u64 {
        let cmds = redraw(&mut d, Acquire::Image(0));
        assert_eq!(cmds.len(), 1);
        let (order, _, width, frame) = run_order(&cmds);
        assert_eq!(order, vec![A, B, PRESENT]);
        assert_eq!(width, 960);
        assert_eq!(frame, f);
    }
    assert_eq!(d.frame_count(), 3);
}

#[test]
fn outdated_surface_skips_frame() {
    let mut d = start();
    redraw(&mut d, Acquire::Image(0));
    let cmds = redraw(&mut d, Acquire::Outdated);
    assert!(cmds.is_empty());
    assert_eq!(d.frame_count(), 1);
    assert_eq!(d.state(), LoopState::Running);
}

#[test]
fn resize_between_frames_rebuilds_at_new_size() {
    let mut d = start();
    redraw(&mut d, Acquire::Image(0));
    let cmds = d.handle_event(WindowEvent::Resized { width: 1280, height: 720 });
    assert_eq!(d.state(), LoopState::Resizing);
    assert_eq!(cmds.len(), 3);
    assert!(matches!(cmds[0], Command::DisposeGraph { generation: 0 }));
    assert!(matches!(cmds[1], Command::SwapChain(SwapChainCall::Destroy(1))));
    match &cmds[2] {
        Command::SwapChain(SwapChainCall::Create(desc)) => {
            assert_eq!(desc.width, 1280);
            assert_eq!(desc.height, 720);
        }
        _ => panic!("expected a swap chain creation"),
    }
    let cmds = d.swap_chain_created(2);
    assert_eq!(d.state(), LoopState::Running);
    match &cmds[0] {
        Command::BuildGraph { generation, images, order } => {
            assert_eq!(*generation, 1);
            assert_eq!(order, &vec![A, B, PRESENT]);
            assert!(images.iter().all(|i| i.width == 1280 && i.height == 720));
        }
        _ => panic!("expected a graph build"),
    }
    let cmds = redraw(&mut d, Acquire::Image(1));
    let (order, target_width, width, frame) = run_order(&cmds);
    assert_eq!(order, vec![A, B, PRESENT]);
    assert_eq!((target_width, width, frame), (1280, 1280, 2));
}

#[test]
fn close_disposes_once_and_reports_frames() {
    let mut d = start();
    redraw(&mut d, Acquire::Image(0));
    redraw(&mut d, Acquire::Timeout);
    redraw(&mut d, Acquire::Image(1));
    let cmds = d.handle_event(WindowEvent::CloseRequested { elapsed_ns: 2_000_000_000 });
    assert_eq!(d.state(), LoopState::Exiting);
    let disposals = cmds.iter().filter(|c| matches!(c, Command::DisposeGraph { .. })).count();
    assert_eq!(disposals, 1);
    match &cmds[1] {
        Command::Report(report) => {
            assert_eq!(report.frame_count, 2);
            assert_eq!(report.average_frame_rate(), 1);
        }
        _ => panic!("expected a report"),
    }
    assert!(matches!(cmds[2], Command::StopPolling));
    // nothing happens once exiting
    assert!(d.handle_event(WindowEvent::CloseRequested { elapsed_ns: 5 }).is_empty());
    assert!(redraw(&mut d, Acquire::Image(0)).is_empty());
}

#[test]
fn frame_rate_of_empty_run() {
    assert_eq!(ExitReport { elapsed_ns: 0, frame_count: 0 }.average_frame_rate(), 0);
    assert_eq!(ExitReport { elapsed_ns: 500_000_000, frame_count: 30 }.average_frame_rate(), 60);
}

#[test]
fn other_events_change_nothing() {
    let mut d = start();
    assert!(d.handle_event(WindowEvent::Other).is_empty());
    assert_eq!(d.frame_count(), 0);
    assert_eq!(d.generation(), 0);
}

#[test]
fn cyclic_graph_never_starts() {
    let nodes = vec![
        NodeDesc { writes: vec![], reads: vec![], deps: vec![1] },
        NodeDesc { writes: vec![], reads: vec![], deps: vec![0] },
    ];
    let sc = SwapChain::build(SwapChainBuilder::new().descriptor(960, 640), 1);
    assert!(FrameLoopDriver::new(vec![], nodes, sc).is_err());
}

#[test]
fn failed_swap_chain_creation_stops_the_loop() {
    let mut d = start();
    d.handle_event(WindowEvent::Resized { width: 1280, height: 720 });
    let cmds = d.swap_chain_creation_failed();
    assert_eq!(d.state(), LoopState::Exiting);
    assert_eq!(cmds.len(), 1);
    assert!(matches!(cmds[0], Command::StopPolling));
    assert!(redraw(&mut d, Acquire::Image(0)).is_empty());
}

#[test]
fn run_of_events_counts_acquired_redraws() {
    let mut d = start();
    let events = vec![
        WindowEvent::RedrawRequested { acquired: Acquire::Image(0), elapsed_ns: 1 },
        WindowEvent::Other,
        WindowEvent::RedrawRequested { acquired: Acquire::Lost, elapsed_ns: 2 },
        WindowEvent::RedrawRequested { acquired: Acquire::Image(1), elapsed_ns: 3 },
        WindowEvent::CloseRequested { elapsed_ns: 1_000_000_000 },
        WindowEvent::RedrawRequested { acquired: Acquire::Image(0), elapsed_ns: 4 },
    ];
    let cmds = d.handle_events(&events);
    assert_eq!(d.frame_count(), 2);
    assert_eq!(d.state(), LoopState::Exiting);
    let reports: Vec<u64> = cmds
        .iter()
        .filter_map(|c| match c {
            Command::Report(r) => Some(r.frame_count),
            _ => None,
        })
        .collect();
    assert_eq!(reports, vec![2]);
    let runs = cmds.iter().filter(|c| matches!(c, Command::RunPasses { .. })).count();
    assert_eq!(runs, 2);
}
