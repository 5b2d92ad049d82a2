use vstd::prelude::*;

verus! {

/// Creation flag: build the pipeline without optimisation.
pub const FLAG_DISABLE_OPTIMIZATION: u32 = 1;

/// Creation flag: other pipelines may be derived from this one.
pub const FLAG_ALLOW_DERIVATIVES: u32 = 2;

/// Creation flag: this pipeline is derived from a parent.
pub const FLAG_DERIVATIVE: u32 = 4;

/// The shader modules (backend handles) of each stage of a graphics pipeline.
#[derive(Clone, Copy, Debug, PartialEq, Eq)]
pub struct ShaderSet {
    pub vertex: u64,
    pub hull: Option<u64>,
    pub domain: Option<u64>,
    pub geometry: Option<u64>,
    pub fragment: Option<u64>,
}

#[derive(Clone, Copy, Debug, PartialEq, Eq)]
pub enum PolygonMode {
    Point,
    Line,
    Fill,
}

#[derive(Clone, Copy, Debug, PartialEq, Eq)]
pub enum CullFace {
    Disabled,
    Front,
    Back,
}

#[derive(Clone, Copy, Debug, PartialEq, Eq)]
pub enum FrontFace {
    Clockwise,
    CounterClockwise,
}

#[derive(Clone, Copy, Debug, PartialEq, Eq)]
pub struct Rasterizer {
    pub polygon_mode: PolygonMode,
    pub cull_face: CullFace,
    pub front_face: FrontFace,
    pub depth_clamping: bool,
}

impl Rasterizer {
    /// Filled polygons, no culling, counter-clockwise front faces.
    pub fn fill() -> (r: Rasterizer)
        ensures
            r == (Rasterizer {
                polygon_mode: PolygonMode::Fill,
                cull_face: CullFace::Disabled,
                front_face: FrontFace::CounterClockwise,
                depth_clamping: false,
            }),
    {
        Rasterizer {
            polygon_mode: PolygonMode::Fill,
            cull_face: CullFace::Disabled,
            front_face: FrontFace::CounterClockwise,
            depth_clamping: false,
        }
    }
}

#[derive(Clone, Copy, Debug, PartialEq, Eq)]
pub struct VertexBufferDesc {
    pub binding: u32,
    pub stride: u32,
    pub per_instance: bool,
}

#[derive(Clone, Copy, Debug, PartialEq, Eq)]
pub struct AttributeDesc {
    pub location: u32,
    pub binding: u32,
    pub offset: u32,
    pub format: u32,
}

#[derive(Clone, Copy, Debug, PartialEq, Eq)]
pub enum Primitive {
    PointList,
    LineList,
    LineStrip,
    TriangleList,
    TriangleStrip,
}

#[derive(Clone, Copy, Debug, PartialEq, Eq)]
pub struct ColorBlendDesc {
    pub mask: u8,
    pub blend: bool,
}

#[derive(Clone, Debug)]
pub struct BlendDesc {
    pub logic_op: Option<u8>,
    pub targets: Vec<ColorBlendDesc>,
}

#[derive(Clone, Copy, Debug, PartialEq, Eq)]
pub enum Comparison {
    Never,
    Less,
    Equal,
    LessEqual,
    Greater,
    NotEqual,
    GreaterEqual,
    Always,
}

#[derive(Clone, Copy, Debug, PartialEq, Eq)]
pub struct DepthStencilDesc {
    pub depth_test: Option<Comparison>,
    pub depth_write: bool,
    pub depth_bounds: bool,
    pub stencil: bool,
}

#[derive(Clone, Copy, Debug, PartialEq, Eq)]
pub struct Multisampling {
    pub rasterization_samples: u8,
    pub alpha_coverage: bool,
    pub alpha_to_one: bool,
}

#[derive(Clone, Copy, Debug, PartialEq, Eq)]
pub struct Rect {
    pub x: i16,
    pub y: i16,
    pub w: i16,
    pub h: i16,
}

/// Fixed-function state baked into the pipeline instead of set per draw.
#[derive(Clone, Copy, Debug, PartialEq, Eq)]
pub struct BakedStates {
    pub viewport: Option<Rect>,
    pub scissor: Option<Rect>,
}

/// The subpass of a render pass (a backend handle) that a pipeline targets.
#[derive(Clone, Copy, Debug, PartialEq, Eq)]
pub struct Subpass {
    pub index: u8,
    pub main_pass: u64,
}

/// The parent of a derivative pipeline: an existing pipeline's handle, the
/// position of an entry of the same batch, or none.
#[derive(Clone, Copy, Debug, PartialEq, Eq)]
pub enum BasePipeline {
    ByHandle(u64),
    ByIndex(usize),
    NoParent,
}

/// A field that a pipeline description cannot do without.
#[derive(Clone, Copy, Debug, PartialEq, Eq)]
pub enum ConfigError {
    MissingShaders,
    MissingLayout,
    MissingSubpass,
}

/// The complete configuration of one graphics pipeline.
#[derive(Clone, Debug)]
pub struct PipelineDesc {
    pub shaders: ShaderSet,
    pub rasterizer: Rasterizer,
    pub vertex_buffers: Vec<VertexBufferDesc>,
    pub attributes: Vec<AttributeDesc>,
    pub input_assembler: Primitive,
    pub blender: BlendDesc,
    pub depth_stencil: DepthStencilDesc,
    pub multisampling: Option<Multisampling>,
    pub baked_states: BakedStates,
    pub layout: u64,
    pub subpass: Subpass,
    pub flags: u32,
    pub parent: BasePipeline,
}

/// Assembles a `PipelineDesc`; every setting can be given in any order, the last one wins.
#[derive(Clone, Debug)]
pub struct PipelineDescBuilder {
    pub shaders: Option<ShaderSet>,
    pub rasterizer: Rasterizer,
    pub vertex_buffers: Vec<VertexBufferDesc>,
    pub attributes: Vec<AttributeDesc>,
    pub input_assembler: Primitive,
    pub blender: BlendDesc,
    pub depth_stencil: DepthStencilDesc,
    pub multisampling: Option<Multisampling>,
    pub baked_states: BakedStates,
    pub layout: Option<u64>,
    pub subpass: Option<Subpass>,
    pub flags: u32,
    pub parent: BasePipeline,
}

/// What is missing from `b` before it can be built, if anything; shaders are
/// checked first, then the layout, then the subpass.
pub open spec fn config_error(b: PipelineDescBuilder) -> Option<ConfigError> {
    if b.shaders is None {
        Some(ConfigError::MissingShaders)
    } else if b.layout is None {
        Some(ConfigError::MissingLayout)
    } else if b.subpass is None {
        Some(ConfigError::MissingSubpass)
    } else {
        None
    }
}

/// The description that `b` builds, when nothing is missing.
pub open spec fn desc_of(b: PipelineDescBuilder) -> PipelineDesc {
    PipelineDesc {
        shaders: b.shaders->Some_0,
        rasterizer: b.rasterizer,
        vertex_buffers: b.vertex_buffers,
        attributes: b.attributes,
        input_assembler: b.input_assembler,
        blender: b.blender,
        depth_stencil: b.depth_stencil,
        multisampling: b.multisampling,
        baked_states: b.baked_states,
        layout: b.layout->Some_0,
        subpass: b.subpass->Some_0,
        flags: b.flags,
        parent: b.parent,
    }
}

impl Default for PipelineDescBuilder {
    fn default() -> (r: Self)
        ensures
            r.is_default(),
    {
        PipelineDescBuilder::new()
    }
}

impl PipelineDescBuilder {
    /// The defaults: fill rasterizer, triangle lists, default blend and
    /// depth/stencil state, no multisampling, no flags, no parent.
    pub open spec fn is_default(&self) -> bool {
        &&& self.shaders is None
        &&& self.rasterizer == (Rasterizer {
            polygon_mode: PolygonMode::Fill,
            cull_face: CullFace::Disabled,
            front_face: FrontFace::CounterClockwise,
            depth_clamping: false,
        })
        &&& self.vertex_buffers@.len() == 0
        &&& self.attributes@.len() == 0
        &&& self.input_assembler == Primitive::TriangleList
        &&& self.blender.logic_op is None
        &&& self.blender.targets@.len() == 0
        &&& self.depth_stencil == (DepthStencilDesc {
            depth_test: None,
            depth_write: false,
            depth_bounds: false,
            stencil: false,
        })
        &&& self.multisampling is None
        &&& self.baked_states == (BakedStates { viewport: None, scissor: None })
        &&& self.layout is None
        &&& self.subpass is None
        &&& self.flags == 0
        &&& self.parent == BasePipeline::NoParent
    }

    pub fn new() -> (r: Self)
        ensures
            r.is_default(),
    {
        PipelineDescBuilder {
            shaders: None,
            rasterizer: Rasterizer::fill(),
            vertex_buffers: Vec::new(),
            attributes: Vec::new(),
            input_assembler: Primitive::TriangleList,
            blender: BlendDesc { logic_op: None, targets: Vec::new() },
            depth_stencil: DepthStencilDesc {
                depth_test: None,
                depth_write: false,
                depth_bounds: false,
                stencil: false,
            },
            multisampling: None,
            baked_states: BakedStates { viewport: None, scissor: None },
            layout: None,
            subpass: None,
            flags: 0,
            parent: BasePipeline::NoParent,
        }
    }

    /// The pipeline description, or the first required field that is unset.
    pub fn build(self) -> (r: Result<PipelineDesc, ConfigError>)
        ensures
            r is Ok <==> config_error(self) is None,
            r matches Ok(d) ==> d == desc_of(self),
            r matches Err(e) ==> config_error(self) == Some(e),
    {
        let shaders = match self.shaders {
            Some(s) => s,
            None => return Err(ConfigError::MissingShaders),
        };
        let layout = match self.layout {
            Some(l) => l,
            None => return Err(ConfigError::MissingLayout),
        };
        let subpass = match self.subpass {
            Some(s) => s,
            None => return Err(ConfigError::MissingSubpass),
        };
        Ok(PipelineDesc {
            shaders,
            rasterizer: self.rasterizer,
            vertex_buffers: self.vertex_buffers,
            attributes: self.attributes,
            input_assembler: self.input_assembler,
            blender: self.blender,
            depth_stencil: self.depth_stencil,
            multisampling: self.multisampling,
            baked_states: self.baked_states,
            layout,
            subpass,
            flags: self.flags,
            parent: self.parent,
        })
    }

    pub fn set_shaders(&mut self, shaders: ShaderSet)
        ensures
            *final(self) == (PipelineDescBuilder { shaders: Some(shaders), ..*old(self) }),
    {
        self.shaders = Some(shaders);
    }

    pub fn with_shaders(self, shaders: ShaderSet) -> (r: Self)
        ensures
            r == (PipelineDescBuilder { shaders: Some(shaders), ..self }),
    {
        let mut b = self;
        b.set_shaders(shaders);
        b
    }

    pub fn set_rasterizer(&mut self, rasterizer: Rasterizer)
        ensures
            *final(self) == (PipelineDescBuilder { rasterizer, ..*old(self) }),
    {
        self.rasterizer = rasterizer;
    }

    pub fn with_rasterizer(self, rasterizer: Rasterizer) -> (r: Self)
        ensures
            r == (PipelineDescBuilder { rasterizer, ..self }),
    {
        let mut b = self;
        b.set_rasterizer(rasterizer);
        b
    }

    pub fn set_vertex_buffers(&mut self, vertex_buffers: Vec<VertexBufferDesc>)
        ensures
            *final(self) == (PipelineDescBuilder { vertex_buffers, ..*old(self) }),
    {
        self.vertex_buffers = vertex_buffers;
    }

    pub fn with_vertex_buffers(self, vertex_buffers: Vec<VertexBufferDesc>) -> (r: Self)
        ensures
            r == (PipelineDescBuilder { vertex_buffers, ..self }),
    {
        let mut b = self;
        b.set_vertex_buffers(vertex_buffers);
        b
    }

    pub fn set_attributes(&mut self, attributes: Vec<AttributeDesc>)
        ensures
            *final(self) == (PipelineDescBuilder { attributes, ..*old(self) }),
    {
        self.attributes = attributes;
    }

    pub fn with_attributes(self, attributes: Vec<AttributeDesc>) -> (r: Self)
        ensures
            r == (PipelineDescBuilder { attributes, ..self }),
    {
        let mut b = self;
        b.set_attributes(attributes);
        b
    }

    pub fn set_input_assembler(&mut self, input_assembler: Primitive)
        ensures
            *final(self) == (PipelineDescBuilder { input_assembler, ..*old(self) }),
    {
        self.input_assembler = input_assembler;
    }

    pub fn with_input_assembler(self, input_assembler: Primitive) -> (r: Self)
        ensures
            r == (PipelineDescBuilder { input_assembler, ..self }),
    {
        let mut b = self;
        b.set_input_assembler(input_assembler);
        b
    }

    pub fn set_blender(&mut self, blender: BlendDesc)
        ensures
            *final(self) == (PipelineDescBuilder { blender, ..*old(self) }),
    {
        self.blender = blender;
    }

    pub fn with_blender(self, blender: BlendDesc) -> (r: Self)
        ensures
            r == (PipelineDescBuilder { blender, ..self }),
    {
        let mut b = self;
        b.set_blender(blender);
        b
    }

    pub fn set_depth_stencil(&mut self, depth_stencil: DepthStencilDesc)
        ensures
            *final(self) == (PipelineDescBuilder { depth_stencil, ..*old(self) }),
    {
        self.depth_stencil = depth_stencil;
    }

    pub fn with_depth_stencil(self, depth_stencil: DepthStencilDesc) -> (r: Self)
        ensures
            r == (PipelineDescBuilder { depth_stencil, ..self }),
    {
        let mut b = self;
        b.set_depth_stencil(depth_stencil);
        b
    }

    pub fn set_multisampling(&mut self, multisampling: Option<Multisampling>)
        ensures
            *final(self) == (PipelineDescBuilder { multisampling, ..*old(self) }),
    {
        self.multisampling = multisampling;
    }

    pub fn with_multisampling(self, multisampling: Option<Multisampling>) -> (r: Self)
        ensures
            r == (PipelineDescBuilder { multisampling, ..self }),
    {
        let mut b = self;
        b.set_multisampling(multisampling);
        b
    }

    pub fn set_baked_states(&mut self, baked_states: BakedStates)
        ensures
            *final(self) == (PipelineDescBuilder { baked_states, ..*old(self) }),
    {
        self.baked_states = baked_states;
    }

    pub fn with_baked_states(self, baked_states: BakedStates) -> (r: Self)
        ensures
            r == (PipelineDescBuilder { baked_states, ..self }),
    {
        let mut b = self;
        b.set_baked_states(baked_states);
        b
    }

    pub fn set_layout(&mut self, layout: u64)
        ensures
            *final(self) == (PipelineDescBuilder { layout: Some(layout), ..*old(self) }),
    {
        self.layout = Some(layout);
    }

    pub fn with_layout(self, layout: u64) -> (r: Self)
        ensures
            r == (PipelineDescBuilder { layout: Some(layout), ..self }),
    {
        let mut b = self;
        b.set_layout(layout);
        b
    }

    pub fn set_subpass(&mut self, subpass: Subpass)
        ensures
            *final(self) == (PipelineDescBuilder { subpass: Some(subpass), ..*old(self) }),
    {
        self.subpass = Some(subpass);
    }

    pub fn with_subpass(self, subpass: Subpass) -> (r: Self)
        ensures
            r == (PipelineDescBuilder { subpass: Some(subpass), ..self }),
    {
        let mut b = self;
        b.set_subpass(subpass);
        b
    }

    pub fn set_flags(&mut self, flags: u32)
        ensures
            *final(self) == (PipelineDescBuilder { flags, ..*old(self) }),
    {
        self.flags = flags;
    }

    pub fn with_flags(self, flags: u32) -> (r: Self)
        ensures
            r == (PipelineDescBuilder { flags, ..self }),
    {
        let mut b = self;
        b.set_flags(flags);
        b
    }

    pub fn set_parent(&mut self, parent: BasePipeline)
        ensures
            *final(self) == (PipelineDescBuilder { parent, ..*old(self) }),
    {
        self.parent = parent;
    }

    pub fn with_parent(self, parent: BasePipeline) -> (r: Self)
        ensures
            r == (PipelineDescBuilder { parent, ..self }),
    {
        let mut b = self;
        b.set_parent(parent);
        b
    }
}

/// Why the backend could not create one pipeline of a batch.
#[derive(Clone, Copy, Debug, PartialEq, Eq)]
pub enum CreationError {
    OutOfHostMemory,
    OutOfDeviceMemory,
    InvalidSubpass(u8),
    Shader,
    Other,
}

/// The error of a whole batch: the first entry that could not be built or created.
#[derive(Clone, Copy, Debug, PartialEq, Eq)]
pub enum PipelineError {
    Config { index: usize, error: ConfigError },
    Creation { index: usize, error: CreationError },
}

/// The handles of the pipelines that were created, in submission order.
pub open spec fn created_handles(results: Seq<Result<u64, CreationError>>) -> Seq<u64>
    decreases results.len(),
{
    if results.len() == 0 {
        Seq::empty()
    } else {
        let init = created_handles(results.drop_last());
        match results.last() {
            Ok(h) => init.push(h),
            Err(_) => init,
        }
    }
}

/// The first creation result that failed, if any.
pub open spec fn first_failure(results: Seq<Result<u64, CreationError>>) -> Option<(usize, CreationError)>
    decreases results.len(),
{
    if results.len() == 0 {
        None
    } else {
        match first_failure(results.drop_last()) {
            Some(f) => Some(f),
            None => match results.last() {
                Ok(_) => None,
                Err(e) => Some(((results.len() - 1) as usize, e)),
            },
        }
    }
}

/// What a batch comes to, given the first invalid entry (if any) and the
/// backend's result for each description that was submitted.
pub open spec fn batch_result(
    invalid: Option<(usize, ConfigError)>,
    results: Seq<Result<u64, CreationError>>,
) -> Result<Seq<u64>, PipelineError> {
    match first_failure(results) {
        Some((index, error)) => Err(PipelineError::Creation { index, error }),
        None => match invalid {
            Some((index, error)) => Err(PipelineError::Config { index, error }),
            None => Ok(created_handles(results)),
        },
    }
}

/// A batch whose descriptions are ready for one creation request.
pub struct PendingBatch {
    /// The descriptions of the entries before the first invalid one, in order.
    pub descs: Vec<PipelineDesc>,
    /// The first entry that could not be built, and why.
    pub invalid: Option<(usize, ConfigError)>,
}

/// The end of a batch: the handles to destroy, and the batch's result.
pub struct BatchOutcome {
    pub destroy: Vec<u64>,
    pub result: Result<Vec<u64>, PipelineError>,
}

impl PendingBatch {
    /// Settles the batch from the backend's result for each submitted description.
    /// On any failure every pipeline that was created is handed back for
    /// destruction and one error is returned; otherwise the handles come back in order.
    pub fn complete(self, results: Vec<Result<u64, CreationError>>) -> (r: BatchOutcome)
        requires
            results@.len() == self.descs@.len(),
        ensures
            r.result is Ok <==> batch_result(self.invalid, results@) is Ok,
            r.result matches Ok(handles) ==> batch_result(self.invalid, results@) == Ok::<Seq<u64>, PipelineError>(handles@)
                && r.destroy@.len() == 0,
            r.result matches Err(e) ==> batch_result(self.invalid, results@) == Err::<Seq<u64>, PipelineError>(e)
                && r.destroy@ == created_handles(results@),
    {
        let mut handles: Vec<u64> = Vec::new();
        let mut failure: Option<(usize, CreationError)> = None;
        let mut p: usize = 0;
        while p < results.len()
            invariant
                p <= results.len(),
                handles@ == created_handles(results@.subrange(0, p as int)),
                failure == first_failure(results@.subrange(0, p as int)),
            decreases results.len() - p,
        {
            proof {
                assert(results@.subrange(0, p as int + 1).drop_last() =~= results@.subrange(0, p as int));
            }
            match results[p] {
                Ok(h) => {
                    handles.push(h);
                },
                Err(e) => {
                    if failure.is_none() {
                        failure = Some((p, e));
                    }
                },
            }
            p += 1;
        }
        proof {
            assert(results@.subrange(0, results@.len() as int) =~= results@);
        }
        match failure {
            Some((index, error)) => BatchOutcome {
                destroy: handles,
                result: Err(PipelineError::Creation { index, error }),
            },
            None => match self.invalid {
                Some((index, error)) => BatchOutcome {
                    destroy: handles,
                    result: Err(PipelineError::Config { index, error }),
                },
                None => BatchOutcome { destroy: Vec::new(), result: Ok(handles) },
            },
        }
    }
}

/// An ordered set of pipeline descriptions, created together in one request.
pub struct PipelinesBuilder {
    builders: Vec<PipelineDescBuilder>,
}

impl Default for PipelinesBuilder {
    fn default() -> (r: Self)
        ensures
            r.spec_builders().len() == 0,
    {
        PipelinesBuilder::new()
    }
}

/// `b` with the flag that lets other pipelines derive from it.
pub open spec fn allowing_derivatives(b: PipelineDescBuilder) -> PipelineDescBuilder {
    PipelineDescBuilder { flags: b.flags | FLAG_ALLOW_DERIVATIVES, ..b }
}

impl PipelinesBuilder {
    pub closed spec fn spec_builders(&self) -> Seq<PipelineDescBuilder> {
        self.builders@
    }

    pub fn new() -> (r: Self)
        ensures
            r.spec_builders().len() == 0,
    {
        PipelinesBuilder { builders: Vec::new() }
    }

    pub fn len(&self) -> (r: usize)
        ensures
            r == self.spec_builders().len(),
    {
        self.builders.len()
    }

    pub fn add_pipeline(&mut self, builder: PipelineDescBuilder)
        ensures
            final(self).spec_builders() == old(self).spec_builders().push(builder),
    {
        self.builders.push(builder);
    }

    pub fn with_pipeline(self, builder: PipelineDescBuilder) -> (r: Self)
        ensures
            r.spec_builders() == self.spec_builders().push(builder),
    {
        let mut s = self;
        s.add_pipeline(builder);
        s
    }

    /// Lets entry `index` have derivatives and appends `builder` as its child.
    pub fn add_child_pipeline(&mut self, index: usize, builder: PipelineDescBuilder)
        requires
            index < old(self).spec_builders().len(),
        ensures
            final(self).spec_builders() == old(self).spec_builders().update(
                index as int,
                allowing_derivatives(old(self).spec_builders()[index as int]),
            ).push(PipelineDescBuilder { parent: BasePipeline::ByIndex(index), ..builder }),
    {
        let ghost before = self.builders@;
        let mut parent = self.builders.remove(index);
        parent.flags = parent.flags | FLAG_ALLOW_DERIVATIVES;
        self.builders.insert(index, parent);
        proof {
            assert(self.builders@ =~= before.update(index as int, allowing_derivatives(before[index as int])));
        }
        self.builders.push(builder.with_parent(BasePipeline::ByIndex(index)));
    }

    pub fn with_child_pipeline(self, index: usize, builder: PipelineDescBuilder) -> (r: Self)
        requires
            index < self.spec_builders().len(),
        ensures
            r.spec_builders() == self.spec_builders().update(
                index as int,
                allowing_derivatives(self.spec_builders()[index as int]),
            ).push(PipelineDescBuilder { parent: BasePipeline::ByIndex(index), ..builder }),
    {
        let mut s = self;
        s.add_child_pipeline(index, builder);
        s
    }

    /// Builds the descriptions in order, up to the first entry that cannot be
    /// built; those descriptions go to the backend as one creation request.
    pub fn build(self) -> (r: PendingBatch)
        ensures
            r.descs@.len() <= self.spec_builders().len(),
            forall|p: int| 0 <= p < r.descs@.len() ==> {
                &&& config_error(#[trigger] self.spec_builders()[p]) is None
                &&& r.descs@[p] == desc_of(self.spec_builders()[p])
            },
            r.invalid is None <==> r.descs@.len() == self.spec_builders().len(),
            r.invalid matches Some((k, e)) ==> k == r.descs@.len() && config_error(self.spec_builders()[k as int]) == Some(e),
    {
        let ghost all = self.builders@;
        let n = self.builders.len();
        let mut rest = self.builders;
        let mut descs: Vec<PipelineDesc> = Vec::new();
        let mut p: usize = 0;
        while rest.len() > 0
            invariant
                all == self.spec_builders(),
                all.len() == n,
                p + rest@.len() == all.len(),
                rest@ == all.subrange(p as int, all.len() as int),
                descs@.len() == p,
                forall|q: int| 0 <= q < p ==> {
                    &&& config_error(#[trigger] all[q]) is None
                    &&& descs@[q] == desc_of(all[q])
                },
            decreases rest@.len(),
        {
            let ghost before = rest@;
            let b = rest.remove(0);
            proof {
                assert(rest@ =~= all.subrange(p as int + 1, all.len() as int));
                assert(b == all[p as int]);
            }
            match b.build() {
                Ok(d) => {
                    descs.push(d);
                    p += 1;
                },
                Err(e) => {
                    return PendingBatch { descs, invalid: Some((p, e)) };
                },
            }
        }
        PendingBatch { descs, invalid: None }
    }
}

/// When every submitted description was created but entry `k` could not be
/// built, the batch fails with that entry's error and destroys exactly the `k`
/// pipelines that were created, in order: creations and destructions balance.
pub proof fn lemma_invalid_entry_rolls_back(
    results: Seq<Result<u64, CreationError>>,
    k: usize,
    error: ConfigError,
)
    requires
        results.len() == k,
        forall|p: int| 0 <= p < k ==> #[trigger] results[p] is Ok,
    ensures
        batch_result(Some((k, error)), results) == Err::<Seq<u64>, PipelineError>(
            PipelineError::Config { index: k, error },
        ),
        created_handles(results).len() == k,
        forall|p: int| 0 <= p < k ==> #[trigger] created_handles(results)[p] == results[p]->Ok_0,
    decreases k,
{
    if k > 0 {
        let init = results.drop_last();
        lemma_invalid_entry_rolls_back(init, (k - 1) as usize, error);
        assert(results.last() is Ok);
    }
}

proof fn lemma_created_handles_append(a: Seq<Result<u64, CreationError>>, b: Seq<Result<u64, CreationError>>)
    ensures
        created_handles(a + b) == created_handles(a) + created_handles(b),
    decreases b.len(),
{
    if b.len() == 0 {
        assert(a + b =~= a);
        assert(created_handles(b) =~= Seq::<u64>::empty());
        assert(created_handles(a) + created_handles(b) =~= created_handles(a));
    } else {
        lemma_created_handles_append(a, b.drop_last());
        assert((a + b).drop_last() =~= a + b.drop_last());
        assert((a + b).last() == b.last());
        match b.last() {
            Ok(h) => {
                assert(created_handles(a) + created_handles(b.drop_last()).push(h)
                    =~= (created_handles(a) + created_handles(b.drop_last())).push(h));
            },
            Err(_) => {},
        }
    }
}

proof fn lemma_first_failure_at(results: Seq<Result<u64, CreationError>>, k: int, error: CreationError)
    requires
        0 <= k < results.len(),
        k <= usize::MAX,
        forall|p: int| 0 <= p < k ==> #[trigger] results[p] is Ok,
        results[k] == Err::<u64, CreationError>(error),
    ensures
        first_failure(results) == Some((k as usize, error)),
    decreases results.len(),
{
    if results.len() == k + 1 {
        lemma_no_failure(results.drop_last());
    } else {
        lemma_first_failure_at(results.drop_last(), k, error);
    }
}

proof fn lemma_no_failure(results: Seq<Result<u64, CreationError>>)
    requires
        forall|p: int| 0 <= p < results.len() ==> #[trigger] results[p] is Ok,
    ensures
        first_failure(results) is None,
    decreases results.len(),
{
    if results.len() > 0 {
        lemma_no_failure(results.drop_last());
        assert(results[results.len() - 1] is Ok);
    }
}

/// When the pipelines before entry `k` were created and entry `k` was not,
/// the batch fails with entry `k`'s error, whatever was found invalid later,
/// and every pipeline that was created, before the failure or after it, is
/// handed back for destruction exactly once, in submission order.
pub proof fn lemma_creation_failure_rolls_back(
    results: Seq<Result<u64, CreationError>>,
    invalid: Option<(usize, ConfigError)>,
    k: usize,
    error: CreationError,
)
    requires
        k < results.len(),
        forall|p: int| 0 <= p < k ==> #[trigger] results[p] is Ok,
        results[k as int] == Err::<u64, CreationError>(error),
    ensures
        batch_result(invalid, results) == Err::<Seq<u64>, PipelineError>(PipelineError::Creation { index: k, error }),
        created_handles(results) == created_handles(results.subrange(0, k as int)) + created_handles(
            results.subrange(k + 1, results.len() as int),
        ),
        created_handles(results.subrange(0, k as int)).len() == k,
        forall|p: int| 0 <= p < k ==> #[trigger] created_handles(results.subrange(0, k as int))[p] == results[p]->Ok_0,
{
    lemma_first_failure_at(results, k as int, error);
    let pre = results.subrange(0, k as int);
    let mid = results.subrange(0, k + 1);
    let post = results.subrange(k + 1, results.len() as int);
    assert(results =~= mid + post);
    lemma_created_handles_append(mid, post);
    assert(mid.drop_last() =~= pre);
    lemma_invalid_entry_rolls_back(pre, k, ConfigError::MissingShaders);
}

} // verus!
