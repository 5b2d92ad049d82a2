use vstd::prelude::*;

verus! {

/// Pixel formats a presentation surface can be configured with.
#[derive(Clone, Copy, Debug, PartialEq, Eq)]
pub enum TextureFormat {
    Bgra8UnormSrgb,
    Bgra8Unorm,
    Rgba8UnormSrgb,
    Rgba8Unorm,
    Rgba16Float,
    Depth32Float,
}

/// How finished images are handed to the display.
#[derive(Clone, Copy, Debug, PartialEq, Eq)]
pub enum PresentMode {
    Immediate,
    Mailbox,
    Fifo,
}

/// Texture usage bit: the image is rendered to as a colour attachment.
pub const USAGE_OUTPUT_ATTACHMENT: u32 = 16;

/// The usage a swap chain gets when none is given.
pub const DEFAULT_USAGE: u32 = USAGE_OUTPUT_ATTACHMENT;

/// Everything the backend needs to create a swap chain.
#[derive(Clone, Copy, Debug, PartialEq, Eq)]
pub struct SwapChainDescriptor {
    pub usage: u32,
    pub format: TextureFormat,
    pub width: u32,
    pub height: u32,
    pub present_mode: PresentMode,
}

/// Swap chain parameters; each one left unset takes its default.
#[derive(Clone, Copy, Debug, PartialEq, Eq)]
pub struct SwapChainBuilder {
    pub usage: Option<u32>,
    pub format: Option<TextureFormat>,
    pub present_mode: Option<PresentMode>,
}

impl Default for SwapChainBuilder {
    fn default() -> (r: Self)
        ensures
            r == (SwapChainBuilder { usage: None, format: None, present_mode: None }),
    {
        SwapChainBuilder::new()
    }
}

impl SwapChainBuilder {
    /// A builder with every parameter unset.
    pub fn new() -> (r: Self)
        ensures
            r == (SwapChainBuilder { usage: None, format: None, present_mode: None }),
    {
        SwapChainBuilder { usage: None, format: None, present_mode: None }
    }

    pub fn format(self, format: TextureFormat) -> (r: Self)
        ensures
            r == (SwapChainBuilder { format: Some(format), ..self }),
    {
        SwapChainBuilder { format: Some(format), ..self }
    }

    pub fn present_mode(self, present_mode: PresentMode) -> (r: Self)
        ensures
            r == (SwapChainBuilder { present_mode: Some(present_mode), ..self }),
    {
        SwapChainBuilder { present_mode: Some(present_mode), ..self }
    }

    pub fn usage(self, usage: u32) -> (r: Self)
        ensures
            r == (SwapChainBuilder { usage: Some(usage), ..self }),
    {
        SwapChainBuilder { usage: Some(usage), ..self }
    }

    /// The descriptor for a swap chain of the given size: output-attachment
    /// usage, sRGB BGRA8 and FIFO presentation unless set otherwise.
    pub fn descriptor(&self, width: u32, height: u32) -> (r: SwapChainDescriptor)
        ensures
            r == (SwapChainDescriptor {
                usage: match self.usage {
                    Some(u) => u,
                    None => DEFAULT_USAGE,
                },
                format: match self.format {
                    Some(f) => f,
                    None => TextureFormat::Bgra8UnormSrgb,
                },
                width,
                height,
                present_mode: match self.present_mode {
                    Some(m) => m,
                    None => PresentMode::Fifo,
                },
            }),
    {
        let usage = match self.usage {
            Some(u) => u,
            None => DEFAULT_USAGE,
        };
        let format = match self.format {
            Some(f) => f,
            None => TextureFormat::Bgra8UnormSrgb,
        };
        let present_mode = match self.present_mode {
            Some(m) => m,
            None => PresentMode::Fifo,
        };
        SwapChainDescriptor { usage, format, width, height, present_mode }
    }
}

/// A call to make on the backend, in the order given.
#[derive(Clone, Copy, Debug, PartialEq, Eq)]
pub enum SwapChainCall {
    Destroy(u64),
    Create(SwapChainDescriptor),
}

/// What the backend answered to a request for the next presentable image.
#[derive(Clone, Copy, Debug, PartialEq, Eq)]
pub enum Acquire {
    Image(u32),
    Outdated,
    Lost,
    Timeout,
}

/// The image a frame draws to.
#[derive(Clone, Copy, Debug, PartialEq, Eq)]
pub struct FrameTarget {
    pub swap_chain: u64,
    pub image: u32,
    pub width: u32,
    pub height: u32,
}

/// The swap chain of one surface: its descriptor, kept for rebuilding, and the
/// one live backend handle, absent only between a rebuild and the new handle.
pub struct SwapChain {
    descriptor: SwapChainDescriptor,
    swap_chain: Option<u64>,
}

/// The backend calls of a rebuild: the live handle (if any) is destroyed
/// before its replacement is created.
pub open spec fn rebuild_calls(live: Option<u64>, desc: SwapChainDescriptor) -> Seq<SwapChainCall> {
    match live {
        Some(h) => seq![SwapChainCall::Destroy(h), SwapChainCall::Create(desc)],
        None => seq![SwapChainCall::Create(desc)],
    }
}

impl SwapChain {
    pub closed spec fn spec_descriptor(&self) -> SwapChainDescriptor {
        self.descriptor
    }

    pub closed spec fn spec_live(&self) -> Option<u64> {
        self.swap_chain
    }

    /// The swap chain that the backend created from `descriptor` as `handle`.
    pub fn build(descriptor: SwapChainDescriptor, handle: u64) -> (r: SwapChain)
        ensures
            r.spec_descriptor() == descriptor,
            r.spec_live() == Some(handle),
    {
        SwapChain { descriptor, swap_chain: Some(handle) }
    }

    /// Resizes the descriptor and gives the calls that replace the swap chain:
    /// the old handle is destroyed first, then the new one created. Only the
    /// width and height change; no handle is live until `install`.
    pub fn rebuild(&mut self, width: u32, height: u32) -> (calls: Vec<SwapChainCall>)
        ensures
            final(self).spec_descriptor() == (SwapChainDescriptor { width, height, ..old(self).spec_descriptor() }),
            final(self).spec_live() is None,
            calls@ == rebuild_calls(old(self).spec_live(), final(self).spec_descriptor()),
    {
        let mut calls: Vec<SwapChainCall> = Vec::new();
        if let Some(h) = self.swap_chain.take() {
            calls.push(SwapChainCall::Destroy(h));
        }
        self.descriptor.width = width;
        self.descriptor.height = height;
        calls.push(SwapChainCall::Create(self.descriptor));
        proof {
            assert(calls@ =~= rebuild_calls(old(self).spec_live(), self.descriptor));
        }
        calls
    }

    /// Takes up the handle the backend created after a rebuild.
    pub fn install(&mut self, handle: u64)
        requires
            old(self).spec_live() is None,
        ensures
            final(self).spec_live() == Some(handle),
            final(self).spec_descriptor() == old(self).spec_descriptor(),
    {
        self.swap_chain = Some(handle);
    }

    pub fn handle(&self) -> (r: Option<u64>)
        ensures
            r == self.spec_live(),
    {
        self.swap_chain
    }

    pub fn descriptor(&self) -> (r: SwapChainDescriptor)
        ensures
            r == self.spec_descriptor(),
    {
        self.descriptor
    }

    /// The frame target for the image the backend handed out, or none when the
    /// surface was outdated, lost or timed out: the frame is then skipped. The
    /// handle is taken for the attempt and given back on every path.
    pub fn next_frame(&mut self, acquired: Acquire) -> (r: Option<FrameTarget>)
        requires
            old(self).spec_live() is Some,
        ensures
            *final(self) == *old(self),
            r is Some <==> acquired is Image,
            r matches Some(t) ==> t == (FrameTarget {
                swap_chain: old(self).spec_live()->Some_0,
                image: acquired->Image_0,
                width: old(self).spec_descriptor().width,
                height: old(self).spec_descriptor().height,
            }),
    {
        let handle = match self.swap_chain.take() {
            Some(h) => h,
            None => return None,
        };
        let target = match acquired {
            Acquire::Image(image) => Some(
                FrameTarget {
                    swap_chain: handle,
                    image,
                    width: self.descriptor.width,
                    height: self.descriptor.height,
                },
            ),
            _ => None,
        };
        self.swap_chain = Some(handle);
        target
    }
}

} // verus!
