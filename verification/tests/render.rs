use kaku::renderstate::{
    compute_indices, glsl_versions, growth_error, retry_first_atlas, round_up_quads, shader_error,
    shader_source, shaders_failed, AtlasError, AtlasRetry, AtlasStep, RenderContext, RenderLayer,
    RenderState, StagingLayer, TripleVertexBuffer,
};

#[test]
fn quads_are_two_triangles() {
    assert_eq!(compute_indices(2), vec![0, 1, 2, 1, 2, 3, 4, 5, 6, 5, 6, 7]);
}

#[test]
fn draw_calls_are_clamped_to_the_capacity() {
    let mut vb = TripleVertexBuffer::new(2);
    vb.next_quad = 5;
    assert_eq!(vb.vertex_index_count(), (8, 12));
    assert_eq!(vb.need_more_quads(), Some(5));
    vb.clear_quad_allocation();
    assert_eq!(vb.vertex_index_count(), (0, 0));
    assert_eq!(vb.need_more_quads(), None);
    for expected in [1, 2, 0] {
        vb.next_index();
        assert_eq!(vb.index, expected);
    }
}

#[test]
fn staging_goes_on_past_the_capacity() {
    let vb = TripleVertexBuffer { index: 0, capacity: 2, next_quad: 1 };
    let mapped: Vec<u32> = (0..8).collect();
    let mut layer = StagingLayer::from_vertex_buffer(&vb, &mapped);
    assert_eq!(layer.vertices, vec![0, 1, 2, 3]);
    assert_eq!(layer.allocate(9), (4, 8));
    assert_eq!(layer.vertices, vec![0, 1, 2, 3, 9, 9, 9, 9]);
    assert_eq!(layer.allocate(9), (0, 4));
    assert_eq!(layer.next_quad, 3);
    let mut target = TripleVertexBuffer::new(2);
    assert_eq!(target.apply_staging(&layer), 8);
    assert_eq!(target.need_more_quads(), Some(3));
}

#[test]
fn vertices_are_copied_where_they_fit() {
    let mut layer: StagingLayer<u32> = StagingLayer {
        vertices: vec![],
        next_quad: 1,
        capacity: 2,
    };
    layer.extend_with(&vec![1, 2, 3, 4], 0);
    assert_eq!(layer.vertices, vec![0, 0, 0, 0, 1, 2, 3, 4]);
    assert_eq!(layer.next_quad, 2);
    layer.extend_with(&vec![5, 6, 7, 8], 0);
    assert_eq!(layer.vertices, vec![0, 0, 0, 0, 1, 2, 3, 4]);
    assert_eq!(layer.next_quad, 3);
    assert_eq!(layer.copy_len(), 8);
}

#[test]
fn layers_stay_sorted() {
    let mut state = RenderState::new();
    assert_eq!(state.layer_for_zindex(1), 1);
    assert_eq!(state.layer_for_zindex(-1), 0);
    assert_eq!(state.layer_for_zindex(0), 1);
    let order: Vec<i8> = state.layers.iter().map(|l| l.zindex).collect();
    assert_eq!(order, vec![-1, 0, 1]);
    assert_eq!(state.layers[1].vb[1].capacity, 1024);
    assert_eq!(state.layers[0].vb[1].capacity, 128);
}

#[test]
fn buffers_grow_in_steps() {
    assert_eq!(round_up_quads(1), 128);
    assert_eq!(round_up_quads(128), 128);
    assert_eq!(round_up_quads(129), 256);
    let mut state = RenderState::new();
    assert!(state.allocated_more_quads().is_empty());
    state.layers[0].vb[0].next_quad = 33;
    let grown = state.allocated_more_quads();
    assert_eq!(grown.len(), 1);
    assert_eq!((grown[0].layer, grown[0].buffer, grown[0].needed, grown[0].quads), (0, 0, 33, 128));
    assert_eq!(state.layers[0].vb[0].capacity, 128);
    assert_eq!(growth_error(&grown[0]), "Failed to allocate 128 quads (needed 33)");
    assert_eq!(state.layers[0].vb[0].next_quad, 0);
    assert!(state.allocated_more_quads().is_empty());
    assert_eq!(state.layers[0].vb[0].capacity, 128);
    let mut layer = RenderLayer::new(64, 3);
    layer.reallocate_quads(2, 256);
    assert_eq!(layer.vb[2].capacity, 256);
    layer.vb[1].next_quad = 65;
    assert_eq!(layer.need_more_quads(1), Some(65));
    layer.clear_quad_allocation();
    assert_eq!(layer.need_more_quads(1), None);
}

#[test]
fn atlases_are_retried() {
    assert_eq!(retry_first_atlas(AtlasError::NeedsSize(512)), AtlasStep::TryAgain(512));
    assert_eq!(retry_first_atlas(AtlasError::Impossible), AtlasStep::GiveUp);
    let mut retry = AtlasRetry::new(None);
    assert_eq!(retry.size_or(128), 128);
    for _ in 0..9 {
        assert!(retry.failed(AtlasError::NeedsSize(256)));
    }
    assert_eq!(retry.size_or(128), 256);
    assert!(!retry.failed(AtlasError::NeedsSize(512)));
    let mut other = AtlasRetry::new(Some(64));
    assert!(!other.failed(AtlasError::Other));
}

#[test]
fn textures_and_shaders_are_checked() {
    assert_eq!(
        RenderContext::Glium.check_atlas_size(9, 8),
        Err("Cannot use a texture of size 9 as it is larger than the max 8 supported by your GPU"
            .to_string())
    );
    assert!(RenderContext::WebGpu.check_atlas_size(9, 8).is_ok());
    assert_eq!(RenderContext::Glium.initializer_len(3), 12);
    assert_eq!(RenderContext::WebGpu.initializer_len(3), 0);
    assert_eq!(RenderContext::Glium.renderer_info("GPU", "4.1"), "OpenGL: GPU 4.1");
    assert_eq!(RenderContext::WebGpu.renderer_info("GPU", ""), "WebGPU: GPU");
    assert_eq!(glsl_versions(None), vec!["330 core", "330", "320 es", "300 es"]);
    assert_eq!(
        glsl_versions(Some("320 es\n")),
        vec!["320 es", "330 core", "330", "300 es"]
    );
    assert_eq!(glsl_versions(Some("99")), vec!["330 core", "330", "320 es", "300 es"]);
    assert_eq!(shader_source("330", "x"), "#version 330\nx");
    assert_eq!(
        shaders_failed(&vec![shader_error("330", "bad"), shader_error("300 es", "worse")]),
        "Failed to compile shaders: shader version: 330: bad\nshader version: 300 es: worse"
    );
}
