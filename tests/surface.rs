use phantoma::surface::{
    Acquire, FrameTarget, PresentMode, SwapChain, SwapChainBuilder, SwapChainCall, SwapChainDescriptor, TextureFormat,
    DEFAULT_USAGE,
};

#[test]
fn builder_defaults_fill_descriptor() {
    let d = SwapChainBuilder::new().descriptor(960, 640);
    assert_eq!(
        d,
        SwapChainDescriptor {
            usage: DEFAULT_USAGE,
            format: TextureFormat::Bgra8UnormSrgb,
            width: 960,
            height: 640,
            present_mode: PresentMode::Fifo
        }
    );
}

#[test]
fn builder_settings_are_kept() {
    let d = SwapChainBuilder::new().format(TextureFormat::Rgba8Unorm).present_mode(PresentMode::Mailbox).descriptor(1, 2);
    assert_eq!(d.format, TextureFormat::Rgba8Unorm);
    assert_eq!(d.present_mode, PresentMode::Mailbox);
}

#[test]
fn rebuild_destroys_before_creating() {
    let desc = SwapChainBuilder::new().descriptor(960, 640);
    let mut sc = SwapChain::build(desc, 7);
    let calls = sc.rebuild(1280, 720);
    let new_desc = SwapChainDescriptor { width: 1280, height: 720, ..desc };
    assert_eq!(calls, vec![SwapChainCall::Destroy(7), SwapChainCall::Create(new_desc)]);
    assert_eq!(sc.handle(), None);
    sc.install(8);
    assert_eq!(sc.handle(), Some(8));
    assert_eq!(sc.descriptor(), new_desc);
}

#[test]
fn next_frame_on_outdated_surface_is_none() {
    let mut sc = SwapChain::build(SwapChainBuilder::new().descriptor(960, 640), 7);
    assert_eq!(sc.next_frame(Acquire::Outdated), None);
    assert_eq!(sc.next_frame(Acquire::Lost), None);
    assert_eq!(sc.handle(), Some(7));
    assert_eq!(sc.next_frame(Acquire::Image(2)), Some(FrameTarget { swap_chain: 7, image: 2, width: 960, height: 640 }));
    assert_eq!(sc.handle(), Some(7));
}
