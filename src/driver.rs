use vstd::prelude::*;

use crate::graph::{
    has_execution_order, is_execution_order, refs_valid, takes_first_ready, ClearColor, FrameState, GraphError,
    ImageResource, NodeDesc, PassRun, RenderGraph,
};
use crate::surface::{rebuild_calls, Acquire, FrameTarget, SwapChain, SwapChainCall};

verus! {

/// Where the frame loop stands.
#[derive(Clone, Copy, Debug, PartialEq, Eq)]
pub enum LoopState {
    Running,
    Resizing,
    Exiting,
}

/// The window events the loop consumes. A redraw carries the backend's answer
/// to the request for the next image; times are nanoseconds since the loop began.
#[derive(Clone, Copy, Debug, PartialEq, Eq)]
pub enum WindowEvent {
    Resized { width: u32, height: u32 },
    RedrawRequested { acquired: Acquire, elapsed_ns: u64 },
    CloseRequested { elapsed_ns: u64 },
    Other,
}

/// An image of the graph, sized to the surface whenever the graph is built.
#[derive(Clone, Copy, Debug, PartialEq, Eq)]
pub struct ImageTemplate {
    pub samples: u8,
    pub clear: Option<ClearColor>,
}

/// What the loop reports when it stops.
#[derive(Clone, Copy, Debug, PartialEq, Eq)]
pub struct ExitReport {
    pub elapsed_ns: u64,
    pub frame_count: u64,
}

impl ExitReport {
    /// Frames per second, rounded down; zero when no time has passed.
    pub fn average_frame_rate(&self) -> (r: u128)
        ensures
            r == if self.elapsed_ns == 0 {
                0
            } else {
                (self.frame_count as int * 1_000_000_000) / (self.elapsed_ns as int)
            },
    {
        if self.elapsed_ns == 0 {
            0
        } else {
            (self.frame_count as u128 * 1_000_000_000) / (self.elapsed_ns as u128)
        }
    }
}

/// Work for the host, to be done in the order given.
#[derive(Debug)]
pub enum Command {
    /// Release every backend resource of this graph generation.
    DisposeGraph { generation: u64 },
    /// Destroy or create a swap chain.
    SwapChain(SwapChainCall),
    /// Realise a graph generation: its images and the order of its passes.
    BuildGraph { generation: u64, images: Vec<ImageResource>, order: Vec<usize> },
    /// Run these passes, in order, into the target image.
    RunPasses { generation: u64, target: FrameTarget, runs: Vec<PassRun> },
    /// Hand the final report to the host.
    Report(ExitReport),
    /// Stop polling for events.
    StopPolling,
}

/// The images of a graph built on swap chain `sc`: each takes the swap chain's
/// size and format.
pub open spec fn sized_images(
    templates: Seq<ImageTemplate>,
    sc: SwapChain,
) -> Seq<ImageResource> {
    Seq::new(
        templates.len(),
        |i: int|
            ImageResource {
                width: sc.spec_descriptor().width,
                height: sc.spec_descriptor().height,
                samples: templates[i].samples,
                format: sc.spec_descriptor().format,
                clear: templates[i].clear,
            },
    )
}

/// Drives rendering from window events: it owns the swap chain and the render
/// graph, rebuilds both on resize, runs the graph on redraw and stops on close.
pub struct FrameLoopDriver {
    state: LoopState,
    swap_chain: SwapChain,
    templates: Vec<ImageTemplate>,
    graph: Option<RenderGraph>,
    spare_nodes: Vec<NodeDesc>,
    frame: u64,
    generation: u64,
}

impl FrameLoopDriver {
    pub closed spec fn spec_state(&self) -> LoopState {
        self.state
    }

    pub closed spec fn spec_templates(&self) -> Seq<ImageTemplate> {
        self.templates@
    }

    pub closed spec fn spec_frame(&self) -> u64 {
        self.frame
    }

    pub closed spec fn spec_generation(&self) -> u64 {
        self.generation
    }

    pub closed spec fn spec_swap_chain(&self) -> SwapChain {
        self.swap_chain
    }

    pub closed spec fn spec_graph(&self) -> Option<RenderGraph> {
        self.graph
    }

    pub closed spec fn spec_nodes(&self) -> Seq<NodeDesc> {
        match self.graph {
            Some(g) => g.spec_nodes(),
            None => self.spare_nodes@,
        }
    }

    /// The passes can always be ordered. While running, a live swap chain and
    /// a well-formed graph of the current generation over exactly these passes,
    /// with its images sized to the swap chain; while resizing, neither a live
    /// swap chain nor a graph; once exiting, no graph.
    pub open spec fn wf(&self) -> bool {
        &&& refs_valid(self.spec_nodes(), self.spec_templates().len() as int)
        &&& has_execution_order(self.spec_nodes())
        &&& match self.spec_state() {
            LoopState::Running => {
                &&& self.spec_swap_chain().spec_live() is Some
                &&& self.spec_graph() matches Some(g) && g.wf() && g.spec_nodes() == self.spec_nodes()
                    && g.spec_generation() == self.spec_generation()
                    && g.spec_images() == sized_images(self.spec_templates(), self.spec_swap_chain())
            },
            LoopState::Resizing => self.spec_swap_chain().spec_live() is None && self.spec_graph() is None,
            LoopState::Exiting => self.spec_graph() is None,
        }
    }

    fn sized(templates: &Vec<ImageTemplate>, swap_chain: &SwapChain) -> (r: Vec<ImageResource>)
        ensures
            r@ == sized_images(templates@, *swap_chain),
    {
        let desc = swap_chain.descriptor();
        let mut images: Vec<ImageResource> = Vec::new();
        let mut i: usize = 0;
        while i < templates.len()
            invariant
                i <= templates.len(),
                desc == swap_chain.spec_descriptor(),
                images@ =~= sized_images(templates@, *swap_chain).subrange(0, i as int),
            decreases templates.len() - i,
        {
            images.push(
                ImageResource {
                    width: desc.width,
                    height: desc.height,
                    samples: templates[i].samples,
                    format: desc.format,
                    clear: templates[i].clear,
                },
            );
            i += 1;
        }
        images
    }

    /// Starts the loop on a live swap chain: builds graph generation 0 at the
    /// swap chain's size and gives the command that realises it.
    pub fn new(templates: Vec<ImageTemplate>, nodes: Vec<NodeDesc>, swap_chain: SwapChain) -> (r:
        Result<(FrameLoopDriver, Command), GraphError>)
        requires
            swap_chain.spec_live() is Some,
        ensures
            r is Ok <==> refs_valid(nodes@, templates@.len() as int) && has_execution_order(nodes@),
            r matches Ok((d, c)) ==> {
                &&& d.wf()
                &&& d.spec_state() == LoopState::Running
                &&& d.spec_frame() == 0
                &&& d.spec_generation() == 0
                &&& d.spec_swap_chain() == swap_chain
                &&& d.spec_nodes() == nodes@
                &&& c matches Command::BuildGraph { generation, images, order } && generation == 0
                    && images@ == sized_images(templates@, swap_chain) && is_execution_order(nodes@, order@)
                    && takes_first_ready(nodes@, order@)
            },
    {
        let images = Self::sized(&templates, &swap_chain);
        let graph = match RenderGraph::build(images, nodes, 0) {
            Ok(g) => g,
            Err(e) => return Err(e),
        };
        let command = Command::BuildGraph {
            generation: 0,
            images: Self::sized(&templates, &swap_chain),
            order: Self::copy_order(graph.order()),
        };
        Ok((FrameLoopDriver {
            state: LoopState::Running,
            swap_chain,
            templates,
            graph: Some(graph),
            spare_nodes: Vec::new(),
            frame: 0,
            generation: 0,
        }, command))
    }

    fn copy_order(order: &Vec<usize>) -> (r: Vec<usize>)
        ensures
            r@ == order@,
    {
        let mut out: Vec<usize> = Vec::new();
        let mut i: usize = 0;
        while i < order.len()
            invariant
                i <= order.len(),
                out@ =~= order@.subrange(0, i as int),
            decreases order.len() - i,
        {
            out.push(order[i]);
            i += 1;
        }
        out
    }

    pub fn state(&self) -> (r: LoopState)
        ensures
            r == self.spec_state(),
    {
        self.state
    }

    pub fn frame_count(&self) -> (r: u64)
        ensures
            r == self.spec_frame(),
    {
        self.frame
    }

    pub fn generation(&self) -> (r: u64)
        ensures
            r == self.spec_generation(),
    {
        self.generation
    }

    /// The live swap chain handle, to request the next image with.
    pub fn swap_chain_handle(&self) -> (r: Option<u64>)
        ensures
            r == self.spec_swap_chain().spec_live(),
    {
        self.swap_chain.handle()
    }

    /// Handles one window event. Once the loop is exiting, and for events it
    /// does not consume, nothing changes and no command is given.
    pub fn handle_event(&mut self, event: WindowEvent) -> (cmds: Vec<Command>)
        requires
            old(self).wf(),
            old(self).spec_state() != LoopState::Resizing,
        ensures
            final(self).wf(),
            (old(self).spec_state() == LoopState::Exiting || event is Other) ==> *final(self) == *old(self)
                && cmds@.len() == 0,
            old(self).spec_state() == LoopState::Running ==> final(self).spec_nodes() == old(self).spec_nodes(),
            event matches WindowEvent::Resized { width, height } ==> (old(self).spec_state() == LoopState::Running ==> {
                &&& final(self).spec_state() == LoopState::Resizing
                &&& final(self).spec_graph() is None
                &&& final(self).spec_swap_chain().spec_live() is None
                &&& final(self).spec_frame() == old(self).spec_frame()
                &&& final(self).spec_generation() == old(self).spec_generation()
                &&& final(self).spec_swap_chain().spec_descriptor() == (crate::surface::SwapChainDescriptor {
                    width,
                    height,
                    ..old(self).spec_swap_chain().spec_descriptor()
                })
                &&& resize_commands(cmds@, old(self).spec_generation(), rebuild_calls(
                    old(self).spec_swap_chain().spec_live(),
                    final(self).spec_swap_chain().spec_descriptor(),
                ))
            }),
            event matches WindowEvent::RedrawRequested { acquired, elapsed_ns } ==> (old(self).spec_state() == LoopState::Running ==> {
                &&& final(self).spec_state() == LoopState::Running
                &&& final(self).spec_generation() == old(self).spec_generation()
                &&& final(self).spec_swap_chain() == old(self).spec_swap_chain()
                &&& final(self).spec_graph() == old(self).spec_graph()
                &&& !(acquired is Image) ==> final(self).spec_frame() == old(self).spec_frame() && cmds@.len() == 0
                &&& acquired is Image ==> {
                    &&& final(self).spec_frame() == next_count(old(self).spec_frame())
                    &&& redraw_commands(cmds@, *old(self), acquired->Image_0, FrameState {
                        frame: final(self).spec_frame(),
                        elapsed_ns,
                        width: old(self).spec_swap_chain().spec_descriptor().width,
                        height: old(self).spec_swap_chain().spec_descriptor().height,
                    })
                }
            }),
            event matches WindowEvent::CloseRequested { elapsed_ns } ==> (old(self).spec_state() == LoopState::Running ==> {
                &&& final(self).spec_state() == LoopState::Exiting
                &&& final(self).spec_frame() == old(self).spec_frame()
                &&& final(self).spec_generation() == old(self).spec_generation()
                &&& cmds@ == seq![
                    Command::DisposeGraph { generation: old(self).spec_generation() },
                    Command::Report(ExitReport { elapsed_ns, frame_count: old(self).spec_frame() }),
                    Command::StopPolling,
                ]
            }),
    {
        if matches!(self.state, LoopState::Exiting) {
            return Vec::new();
        }
        match event {
            WindowEvent::Resized { width, height } => self.on_resize(width, height),
            WindowEvent::RedrawRequested { acquired, elapsed_ns } => self.on_redraw(acquired, elapsed_ns),
            WindowEvent::CloseRequested { elapsed_ns } => self.on_close(elapsed_ns),
            WindowEvent::Other => Vec::new(),
        }
    }

    /// Takes up the swap chain the backend created after a resize, builds the
    /// next graph generation at the new size, and gives the command that
    /// realises it. The loop runs again.
    pub fn swap_chain_created(&mut self, handle: u64) -> (cmds: Vec<Command>)
        requires
            old(self).wf(),
            old(self).spec_state() == LoopState::Resizing,
        ensures
            final(self).wf(),
            final(self).spec_state() == LoopState::Running,
            final(self).spec_frame() == old(self).spec_frame(),
            final(self).spec_generation() == next_count(old(self).spec_generation()),
            final(self).spec_swap_chain().spec_live() == Some(handle),
            final(self).spec_swap_chain().spec_descriptor() == old(self).spec_swap_chain().spec_descriptor(),
            final(self).spec_nodes() == old(self).spec_nodes(),
            cmds@.len() == 1,
            cmds@[0] matches Command::BuildGraph { generation, images, order } && generation == final(self).spec_generation()
                && images@ == sized_images(final(self).spec_templates(), final(self).spec_swap_chain())
                && is_execution_order(final(self).spec_nodes(), order@)
                && takes_first_ready(final(self).spec_nodes(), order@),
    {
        self.swap_chain.install(handle);
        if self.generation < u64::MAX {
            self.generation = self.generation + 1;
        }
        let images = Self::sized(&self.templates, &self.swap_chain);
        let mut nodes: Vec<NodeDesc> = Vec::new();
        std::mem::swap(&mut nodes, &mut self.spare_nodes);
        match RenderGraph::build(images, nodes, self.generation) {
            Ok(graph) => {
                let command = Command::BuildGraph {
                    generation: self.generation,
                    images: Self::sized(&self.templates, &self.swap_chain),
                    order: Self::copy_order(graph.order()),
                };
                self.graph = Some(graph);
                self.state = LoopState::Running;
                let mut cmds: Vec<Command> = Vec::new();
                cmds.push(command);
                cmds
            },
            Err(_) => {
                proof {
                    assert(false);
                }
                Vec::new()
            },
        }
    }

    /// Handles a run of events that holds no resize, one after another, and
    /// gives their commands in turn. The frame counter then counts the redraws
    /// that got an image before the first close.
    pub fn handle_events(&mut self, events: &Vec<WindowEvent>) -> (cmds: Vec<Command>)
        requires
            old(self).wf(),
            old(self).spec_state() != LoopState::Resizing,
            forall|i: int| 0 <= i < events@.len() ==> !(#[trigger] events@[i] is Resized),
        ensures
            final(self).wf(),
            final(self).spec_frame() == frames_after(old(self).spec_frame(), old(self).spec_state(), events@),
            final(self).spec_state() == (if old(self).spec_state() == LoopState::Exiting || closes(events@) {
                LoopState::Exiting
            } else {
                LoopState::Running
            }),
    {
        let ghost start = self.spec_frame();
        let ghost start_state = self.spec_state();
        let mut cmds: Vec<Command> = Vec::new();
        let mut i: usize = 0;
        while i < events.len()
            invariant
                i <= events.len(),
                self.wf(),
                self.spec_state() != LoopState::Resizing,
                start_state != LoopState::Resizing,
                forall|j: int| 0 <= j < events@.len() ==> !(#[trigger] events@[j] is Resized),
                self.spec_frame() == frames_after(start, start_state, events@.subrange(0, i as int)),
                self.spec_state() == (if start_state == LoopState::Exiting || closes(events@.subrange(0, i as int)) {
                    LoopState::Exiting
                } else {
                    LoopState::Running
                }),
            decreases events.len() - i,
        {
            proof {
                let pre = events@.subrange(0, i as int);
                let next = events@.subrange(0, i as int + 1);
                assert(next.drop_last() =~= pre);
                assert(next.last() == events@[i as int]);
                assert(closes(next) <==> closes(pre) || events@[i as int] is CloseRequested) by {
                    if closes(next) {
                        let j = choose|j: int| 0 <= j < next.len() && #[trigger] next[j] is CloseRequested;
                        if j < i {
                            assert(pre[j] == next[j]);
                        }
                    }
                    if closes(pre) {
                        let j = choose|j: int| 0 <= j < pre.len() && #[trigger] pre[j] is CloseRequested;
                        assert(next[j] == pre[j]);
                    }
                    if events@[i as int] is CloseRequested {
                        assert(next[i as int] is CloseRequested);
                    }
                }
            }
            let mut step = self.handle_event(events[i]);
            cmds.append(&mut step);
            i += 1;
        }
        proof {
            assert(events@.subrange(0, events@.len() as int) =~= events@);
        }
        cmds
    }

    /// The backend could not create the swap chain after a resize: the loop
    /// stops with no graph live, and the host propagates the error.
    pub fn swap_chain_creation_failed(&mut self) -> (cmds: Vec<Command>)
        requires
            old(self).wf(),
            old(self).spec_state() == LoopState::Resizing,
        ensures
            final(self).wf(),
            final(self).spec_state() == LoopState::Exiting,
            final(self).spec_graph() is None,
            final(self).spec_frame() == old(self).spec_frame(),
            final(self).spec_generation() == old(self).spec_generation(),
            final(self).spec_nodes() == old(self).spec_nodes(),
            cmds@ == seq![Command::StopPolling],
    {
        self.state = LoopState::Exiting;
        let mut cmds: Vec<Command> = Vec::new();
        cmds.push(Command::StopPolling);
        proof {
            assert(cmds@ =~= seq![Command::StopPolling]);
        }
        cmds
    }

    /// On a resize: disposes the graph, then gives the calls that destroy the
    /// old swap chain and create one of the new size. The loop waits in
    /// `Resizing` until `swap_chain_created` hands it the new handle.
    fn on_resize(&mut self, width: u32, height: u32) -> (cmds: Vec<Command>)
        requires
            old(self).wf(),
            old(self).spec_state() == LoopState::Running,
        ensures
            final(self).wf(),
            final(self).spec_state() == LoopState::Resizing,
            final(self).spec_frame() == old(self).spec_frame(),
            final(self).spec_generation() == old(self).spec_generation(),
            final(self).spec_nodes() == old(self).spec_nodes(),
            final(self).spec_swap_chain().spec_descriptor() == (crate::surface::SwapChainDescriptor {
                width,
                height,
                ..old(self).spec_swap_chain().spec_descriptor()
            }),
            resize_commands(cmds@, old(self).spec_generation(), rebuild_calls(
                old(self).spec_swap_chain().spec_live(),
                final(self).spec_swap_chain().spec_descriptor(),
            )),
    {
        let graph = self.graph.take().unwrap();
        let (generation, nodes) = graph.dispose();
        self.spare_nodes = nodes;
        let calls = self.swap_chain.rebuild(width, height);
        let mut cmds: Vec<Command> = Vec::new();
        cmds.push(Command::DisposeGraph { generation });
        let mut i: usize = 0;
        while i < calls.len()
            invariant
                i <= calls.len(),
                cmds@.len() == i + 1,
                cmds@[0] == (Command::DisposeGraph { generation }),
                forall|x: int| 0 <= x < i ==> #[trigger] cmds@[x + 1] == Command::SwapChain(calls@[x]),
            decreases calls.len() - i,
        {
            cmds.push(Command::SwapChain(calls[i]));
            i += 1;
        }
        self.state = LoopState::Resizing;
        cmds
    }

    /// On a redraw: skips the frame when no image came, else counts it and
    /// runs the graph's passes for it.
    fn on_redraw(&mut self, acquired: Acquire, elapsed_ns: u64) -> (cmds: Vec<Command>)
        requires
            old(self).wf(),
            old(self).spec_state() == LoopState::Running,
        ensures
            final(self).wf(),
            final(self).spec_state() == LoopState::Running,
            final(self).spec_generation() == old(self).spec_generation(),
            final(self).spec_swap_chain() == old(self).spec_swap_chain(),
            final(self).spec_graph() == old(self).spec_graph(),
            final(self).spec_nodes() == old(self).spec_nodes(),
            !(acquired is Image) ==> final(self).spec_frame() == old(self).spec_frame() && cmds@.len() == 0,
            acquired is Image ==> {
                &&& final(self).spec_frame() == next_count(old(self).spec_frame())
                &&& redraw_commands(cmds@, *old(self), acquired->Image_0, FrameState {
                    frame: final(self).spec_frame(),
                    elapsed_ns,
                    width: old(self).spec_swap_chain().spec_descriptor().width,
                    height: old(self).spec_swap_chain().spec_descriptor().height,
                })
            },
    {
        let mut cmds: Vec<Command> = Vec::new();
        match self.swap_chain.next_frame(acquired) {
            None => cmds,
            Some(target) => {
                if self.frame < u64::MAX {
                    self.frame = self.frame + 1;
                }
                let desc = self.swap_chain.descriptor();
                let state = FrameState {
                    frame: self.frame,
                    elapsed_ns,
                    width: desc.width,
                    height: desc.height,
                };
                let runs = match &self.graph {
                    Some(g) => g.execute(state),
                    None => Vec::new(),
                };
                cmds.push(Command::RunPasses { generation: self.generation, target, runs });
                cmds
            },
        }
    }

    /// On close: disposes the graph, reports, and stops the loop.
    fn on_close(&mut self, elapsed_ns: u64) -> (cmds: Vec<Command>)
        requires
            old(self).wf(),
            old(self).spec_state() == LoopState::Running,
        ensures
            final(self).wf(),
            final(self).spec_state() == LoopState::Exiting,
            final(self).spec_frame() == old(self).spec_frame(),
            final(self).spec_generation() == old(self).spec_generation(),
            final(self).spec_nodes() == old(self).spec_nodes(),
            cmds@ == seq![
                Command::DisposeGraph { generation: old(self).spec_generation() },
                Command::Report(ExitReport { elapsed_ns, frame_count: old(self).spec_frame() }),
                Command::StopPolling,
            ],
    {
        let graph = self.graph.take().unwrap();
        let (generation, nodes) = graph.dispose();
        self.spare_nodes = nodes;
        self.state = LoopState::Exiting;
        let mut cmds: Vec<Command> = Vec::new();
        cmds.push(Command::DisposeGraph { generation });
        cmds.push(Command::Report(ExitReport { elapsed_ns, frame_count: self.frame }));
        cmds.push(Command::StopPolling);
        proof {
            assert(cmds@ =~= seq![
                Command::DisposeGraph { generation: old(self).spec_generation() },
                Command::Report(ExitReport { elapsed_ns, frame_count: old(self).spec_frame() }),
                Command::StopPolling,
            ]);
        }
        cmds
    }
}

/// Some event of `events` asks to close.
pub open spec fn closes(events: Seq<WindowEvent>) -> bool {
    exists|j: int| 0 <= j < events.len() && #[trigger] events[j] is CloseRequested
}

/// The frame counter after `events`, from `frame` in `state`: each redraw that
/// got an image counts, until the loop exits.
pub open spec fn frames_after(frame: u64, state: LoopState, events: Seq<WindowEvent>) -> u64
    decreases events.len(),
{
    if events.len() == 0 {
        frame
    } else {
        let f = frames_after(frame, state, events.drop_last());
        if state != LoopState::Exiting && !closes(events.drop_last())
            && events.last() matches WindowEvent::RedrawRequested { acquired: Acquire::Image(_), .. } {
            next_count(f)
        } else {
            f
        }
    }
}

/// How many events of `events` are redraws that got an image.
pub open spec fn acquired_redraws(events: Seq<WindowEvent>) -> nat
    decreases events.len(),
{
    if events.len() == 0 {
        0
    } else {
        acquired_redraws(events.drop_last()) + if events.last() matches WindowEvent::RedrawRequested {
            acquired: Acquire::Image(_),
            ..
        } {
            1nat
        } else {
            0nat
        }
    }
}

/// From a running loop with a fresh counter, the frame count after events
/// with no close is the number of redraws that got an image: the count that a
/// later close reports.
pub proof fn lemma_frames_count_redraws(events: Seq<WindowEvent>)
    requires
        !closes(events),
        acquired_redraws(events) < u64::MAX,
    ensures
        frames_after(0, LoopState::Running, events) == acquired_redraws(events),
    decreases events.len(),
{
    if events.len() > 0 {
        let pre = events.drop_last();
        assert(!closes(pre)) by {
            if closes(pre) {
                let j = choose|j: int| 0 <= j < pre.len() && #[trigger] pre[j] is CloseRequested;
                assert(events[j] == pre[j]);
            }
        }
        lemma_frames_count_redraws(pre);
    }
}

/// The frame counter after one more frame; it stops at its largest value.
pub open spec fn next_count(frame: u64) -> u64 {
    if frame < u64::MAX {
        (frame + 1) as u64
    } else {
        frame
    }
}

/// The commands of a resize: dispose the graph, then the swap chain calls, in order.
pub open spec fn resize_commands(cmds: Seq<Command>, generation: u64, calls: Seq<SwapChainCall>) -> bool {
    &&& cmds.len() == calls.len() + 1
    &&& cmds[0] == (Command::DisposeGraph { generation })
    &&& forall|x: int| 0 <= x < calls.len() ==> #[trigger] cmds[x + 1] == Command::SwapChain(calls[x])
}

/// The one command of a redraw: run every pass of the graph, in its order, for `state`.
pub open spec fn redraw_commands(cmds: Seq<Command>, d: FrameLoopDriver, image: u32, state: FrameState) -> bool {
    &&& cmds.len() == 1
    &&& cmds[0] matches Command::RunPasses { generation, target, runs } && {
        &&& generation == d.spec_generation()
        &&& target == (FrameTarget {
            swap_chain: d.spec_swap_chain().spec_live()->Some_0,
            image,
            width: state.width,
            height: state.height,
        })
        &&& d.spec_graph() matches Some(g) && runs@.len() == g.spec_order().len()
            && forall|p: int| 0 <= p < runs@.len() ==> #[trigger] runs@[p] == (PassRun {
                node: g.spec_order()[p],
                frame: state,
            })
    }
}


} // verus!
