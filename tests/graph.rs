use phantoma::graph::{execution_order, FrameState, GraphError, ImageResource, NodeDesc, PassRun, RenderGraph};
use phantoma::surface::TextureFormat;

fn node(writes: Vec<usize>, reads: Vec<usize>, deps: Vec<usize>) -> NodeDesc {
    NodeDesc { writes, reads, deps }
}

fn image() -> ImageResource {
    ImageResource { width: 960, height: 640, samples: 1, format: TextureFormat::Bgra8UnormSrgb, clear: None }
}

fn position(order: &[usize], k: usize) -> usize {
    order.iter().position(|&x| x == k).unwrap()
}

#[test]
fn chain_runs_in_dependency_order() {
    let nodes = vec![node(vec![0], vec![], vec![]), node(vec![1], vec![0], vec![0]), node(vec![], vec![1], vec![1])];
    assert_eq!(execution_order(&nodes).unwrap(), vec![0, 1, 2]);
}

#[test]
fn reader_declared_first_runs_after_writer() {
    // pass 0 reads image 0, which pass 1 writes
    let nodes = vec![node(vec![], vec![0], vec![]), node(vec![0], vec![], vec![])];
    assert_eq!(execution_order(&nodes).unwrap(), vec![1, 0]);
}

#[test]
fn explicit_edge_is_respected() {
    let nodes = vec![node(vec![], vec![], vec![2]), node(vec![], vec![], vec![]), node(vec![], vec![], vec![])];
    let order = execution_order(&nodes).unwrap();
    assert!(position(&order, 2) < position(&order, 0));
    assert_eq!(order, vec![1, 2, 0]);
}

#[test]
fn independent_passes_keep_declaration_order() {
    let nodes = vec![node(vec![], vec![], vec![]), node(vec![], vec![], vec![]), node(vec![], vec![], vec![])];
    assert_eq!(execution_order(&nodes).unwrap(), vec![0, 1, 2]);
}

#[test]
fn pass_reading_what_it_writes_is_no_cycle() {
    let nodes = vec![node(vec![0], vec![0], vec![])];
    assert_eq!(execution_order(&nodes).unwrap(), vec![0]);
}

#[test]
fn empty_graph_has_empty_order() {
    let nodes: Vec<NodeDesc> = vec![];
    assert_eq!(execution_order(&nodes).unwrap(), Vec::<usize>::new());
}

#[test]
fn random_dags_are_ordered() {
    let mut seed: u64 = 0x2545_f491_4f6c_dd1d;
    for _ in 0..200 {
        let n = (seed % 8) as usize + 1;
        let mut nodes = Vec::new();
        for i in 0..n {
            let mut deps = Vec::new();
            let mut reads = Vec::new();
            for j in 0..i {
                seed ^= seed << 13;
                seed ^= seed >> 7;
                seed ^= seed << 17;
                if seed % 3 == 0 {
                    deps.push(j);
                }
                if seed % 5 == 0 {
                    reads.push(j);
                }
            }
            nodes.push(node(vec![i], reads, deps));
        }
        let order = execution_order(&nodes).unwrap();
        assert_eq!(order.len(), n);
        for (i, nd) in nodes.iter().enumerate() {
            for &d in &nd.deps {
                assert!(position(&order, d) < position(&order, i));
            }
            for &r in &nd.reads {
                if r != i {
                    assert!(position(&order, r) < position(&order, i));
                }
            }
        }
        seed = seed.wrapping_mul(6364136223846793005).wrapping_add(1);
    }
}

#[test]
fn cycle_is_reported() {
    let nodes = vec![node(vec![], vec![], vec![1]), node(vec![], vec![], vec![0])];
    assert!(matches!(execution_order(&nodes), Err(GraphError::Cycle { .. })));
}

#[test]
fn cycle_through_images_is_reported() {
    let nodes = vec![node(vec![0], vec![1], vec![]), node(vec![1], vec![0], vec![]), node(vec![], vec![], vec![])];
    match RenderGraph::build(vec![image(), image()], nodes, 0) {
        Err(GraphError::Cycle { node }) => assert!(node < 2),
        _ => panic!("expected a cycle"),
    }
}

#[test]
fn dangling_image_is_rejected() {
    let nodes = vec![node(vec![0], vec![], vec![]), node(vec![], vec![3], vec![])];
    assert!(matches!(RenderGraph::build(vec![image()], nodes, 0), Err(GraphError::DanglingReference { node: 1 })));
}

#[test]
fn dangling_pass_is_rejected() {
    let nodes = vec![node(vec![], vec![], vec![5])];
    assert!(matches!(RenderGraph::build(vec![], nodes, 0), Err(GraphError::DanglingReference { node: 0 })));
}

#[test]
fn execute_runs_passes_in_order_with_frame_state() {
    let nodes = vec![node(vec![0], vec![], vec![]), node(vec![1], vec![0], vec![0]), node(vec![], vec![1], vec![1])];
    let graph = RenderGraph::build(vec![image(), image()], nodes, 7).unwrap();
    let frame = FrameState { frame: 3, elapsed_ns: 10, width: 960, height: 640 };
    let runs = graph.execute(frame);
    assert_eq!(runs, vec![PassRun { node: 0, frame }, PassRun { node: 1, frame }, PassRun { node: 2, frame }]);
    assert_eq!(graph.generation(), 7);
    let (generation, back) = graph.dispose();
    assert_eq!(generation, 7);
    assert_eq!(back.len(), 3);
}

#[test]
fn same_passes_give_same_order() {
    let make = || vec![node(vec![], vec![0], vec![]), node(vec![0], vec![], vec![]), node(vec![], vec![], vec![0])];
    let first = RenderGraph::build(vec![image()], make(), 0).unwrap();
    let second = RenderGraph::build(vec![image()], make(), 1).unwrap();
    assert_eq!(first.order(), second.order());
    assert_eq!(first.order(), &vec![1, 0, 2]);
}

#[test]
fn pass_depending_on_itself_is_a_cycle() {
    let nodes = vec![node(vec![], vec![], vec![0])];
    assert!(matches!(execution_order(&nodes), Err(GraphError::Cycle { node: 0 })));
    assert!(matches!(RenderGraph::build(vec![], vec![node(vec![], vec![], vec![0])], 0), Err(GraphError::Cycle { node: 0 })));
}

#[test]
fn cycle_error_names_a_pass_on_the_cycle() {
    // pass 0 follows pass 1; passes 1 and 2 follow each other
    let nodes = vec![node(vec![], vec![], vec![1]), node(vec![], vec![], vec![2]), node(vec![], vec![], vec![1])];
    match execution_order(&nodes) {
        Err(GraphError::Cycle { node }) => assert!(node == 1 || node == 2),
        _ => panic!("expected a cycle"),
    }
}
