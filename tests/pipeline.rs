use phantoma::pipeline::{
    BasePipeline, ConfigError, CreationError, CullFace, PipelineDescBuilder, PipelineError, PipelinesBuilder, PolygonMode,
    Primitive, Rasterizer, ShaderSet, Subpass, FLAG_ALLOW_DERIVATIVES, FLAG_DISABLE_OPTIMIZATION,
};

fn shaders() -> ShaderSet {
    ShaderSet { vertex: 1, hull: None, domain: None, geometry: None, fragment: Some(2) }
}

fn complete_builder() -> PipelineDescBuilder {
    PipelineDescBuilder::new().with_shaders(shaders()).with_layout(10).with_subpass(Subpass { index: 0, main_pass: 20 })
}

#[test]
fn builder_defaults() {
    let b = PipelineDescBuilder::new();
    assert_eq!(b.rasterizer.polygon_mode, PolygonMode::Fill);
    assert_eq!(b.input_assembler, Primitive::TriangleList);
    assert!(b.multisampling.is_none());
    assert_eq!(b.flags, 0);
    assert_eq!(b.parent, BasePipeline::NoParent);
}

#[test]
fn build_reports_missing_fields_in_order() {
    assert!(matches!(PipelineDescBuilder::new().build(), Err(ConfigError::MissingShaders)));
    assert!(matches!(PipelineDescBuilder::new().with_shaders(shaders()).build(), Err(ConfigError::MissingLayout)));
    assert!(matches!(
        PipelineDescBuilder::new().with_shaders(shaders()).with_layout(3).build(),
        Err(ConfigError::MissingSubpass)
    ));
}

#[test]
fn build_keeps_every_setting_last_write_wins() {
    let mut raster = Rasterizer::fill();
    raster.cull_face = CullFace::Back;
    let d = complete_builder()
        .with_flags(FLAG_DISABLE_OPTIMIZATION)
        .with_layout(11)
        .with_rasterizer(raster)
        .with_input_assembler(Primitive::LineList)
        .with_parent(BasePipeline::ByHandle(99))
        .build()
        .unwrap();
    assert_eq!(d.layout, 11);
    assert_eq!(d.flags, FLAG_DISABLE_OPTIMIZATION);
    assert_eq!(d.rasterizer.cull_face, CullFace::Back);
    assert_eq!(d.input_assembler, Primitive::LineList);
    assert_eq!(d.parent, BasePipeline::ByHandle(99));
    assert_eq!(d.shaders, shaders());
}

#[test]
fn child_pipeline_marks_parent_and_points_to_it() {
    let set = PipelinesBuilder::new().with_pipeline(complete_builder()).with_child_pipeline(0, complete_builder());
    let batch = set.build();
    assert!(batch.invalid.is_none());
    assert_eq!(batch.descs.len(), 2);
    assert_eq!(batch.descs[0].flags & FLAG_ALLOW_DERIVATIVES, FLAG_ALLOW_DERIVATIVES);
    assert_eq!(batch.descs[1].parent, BasePipeline::ByIndex(0));
}

#[test]
fn batch_success_returns_handles_in_order() {
    let batch = PipelinesBuilder::new().with_pipeline(complete_builder()).with_pipeline(complete_builder()).build();
    let outcome = batch.complete(vec![Ok(5), Ok(6)]);
    assert_eq!(outcome.result.unwrap(), vec![5, 6]);
    assert!(outcome.destroy.is_empty());
}

#[test]
fn invalid_builder_rolls_back_created_pipelines() {
    // builder 2 of 4 has no layout: 0 and 1 are created, then destroyed
    let set = PipelinesBuilder::new()
        .with_pipeline(complete_builder())
        .with_pipeline(complete_builder())
        .with_pipeline(PipelineDescBuilder::new().with_shaders(shaders()))
        .with_pipeline(complete_builder());
    let batch = set.build();
    assert_eq!(batch.descs.len(), 2);
    let created: Vec<Result<u64, CreationError>> = vec![Ok(100), Ok(101)];
    let outcome = batch.complete(created);
    assert_eq!(outcome.destroy, vec![100, 101]);
    assert_eq!(outcome.result, Err(PipelineError::Config { index: 2, error: ConfigError::MissingLayout }));
}

#[test]
fn creation_failure_destroys_every_created_pipeline() {
    let batch = PipelinesBuilder::new()
        .with_pipeline(complete_builder())
        .with_pipeline(complete_builder())
        .with_pipeline(complete_builder())
        .build();
    let outcome = batch.complete(vec![Ok(1), Err(CreationError::Shader), Ok(3)]);
    assert_eq!(outcome.destroy, vec![1, 3]);
    assert_eq!(outcome.result, Err(PipelineError::Creation { index: 1, error: CreationError::Shader }));
}

#[test]
fn empty_batch_succeeds() {
    let outcome = PipelinesBuilder::new().build().complete(vec![]);
    assert_eq!(outcome.result.unwrap(), Vec::<u64>::new());
}

#[test]
fn creation_failure_after_valid_prefix_destroys_all_created() {
    // entries 0 and 1 created, entry 2 fails, entry 3 created anyway
    let batch = PipelinesBuilder::new()
        .with_pipeline(complete_builder())
        .with_pipeline(complete_builder())
        .with_pipeline(complete_builder())
        .with_pipeline(complete_builder())
        .build();
    let outcome = batch.complete(vec![Ok(10), Ok(11), Err(CreationError::OutOfDeviceMemory), Ok(13)]);
    assert_eq!(outcome.destroy, vec![10, 11, 13]);
    assert_eq!(outcome.result, Err(PipelineError::Creation { index: 2, error: CreationError::OutOfDeviceMemory }));
}
