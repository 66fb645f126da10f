use shade::dither::invert;
use shade::drawbuf::{DrawBuffer, DrawBuilder};
use shade::handle::{IndexBuffer, VertexBuffer};
use shade::graphics::{BlendMode, DrawMask, GfxError, IndexType, PrimType};
use shade::image::{gutter, ImageSize, LoadImageError};
use shade::pipeline::{
    assign_texture_units, attribute_mask, blend_params, mask_locations, ActiveUniform, ArraysDraw, BlendEquation, BlendFactor,
    BlendParams, DrawSession, IndexedDraw,
};

#[test]
fn blend_modes_map_to_blend_functions() {
    assert_eq!(
        blend_params(BlendMode::Alpha),
        BlendParams { sfactor: BlendFactor::SrcAlpha, dfactor: BlendFactor::OneMinusSrcAlpha, equation: BlendEquation::Add }
    );
    assert_eq!(blend_params(BlendMode::Solid), BlendParams { sfactor: BlendFactor::One, dfactor: BlendFactor::Zero, equation: BlendEquation::Add });
    assert_eq!(blend_params(BlendMode::Lighten).equation, BlendEquation::Max);
    assert_eq!(blend_params(BlendMode::Darken).equation, BlendEquation::Min);
    assert_eq!(blend_params(BlendMode::Multiply).sfactor, BlendFactor::DstColor);
    assert_eq!(blend_params(BlendMode::Screen).dfactor, BlendFactor::OneMinusSrcColor);
    assert_eq!(blend_params(BlendMode::Additive), BlendParams { sfactor: BlendFactor::One, dfactor: BlendFactor::One, equation: BlendEquation::Add });
}

#[test]
fn draw_session_begin_end_cycle() {
    let mut session = DrawSession::new();
    assert_eq!(session.check_clear(), Err(GfxError::InvalidDrawCallTime));
    assert_eq!(session.begin(), Ok(()));
    assert_eq!(session.begin(), Err(GfxError::InvalidDrawCallTime));
    assert!(session.drawing());
    assert_eq!(session.check_clear(), Ok(()));
    assert_eq!(session.end(), Ok(()));
    assert!(!session.drawing());
    assert_eq!(session.begin(), Ok(()));
}

#[test]
fn arrays_draw_checks() {
    let mut session = DrawSession::new();
    assert_eq!(session.check_arrays(true, true, 0, 3), Err(GfxError::InvalidDrawCallTime));
    session.begin().unwrap();
    assert_eq!(session.check_arrays(false, true, 0, 3), Err(GfxError::InvalidHandle));
    assert_eq!(session.check_arrays(true, false, 0, 3), Err(GfxError::InvalidHandle));
    assert_eq!(session.check_arrays(true, true, 4, 3), Err(GfxError::IndexOutOfBounds));
    assert_eq!(session.check_arrays(true, true, 3, 3), Ok(None));
    assert_eq!(session.check_arrays(true, true, 2, 8), Ok(Some(ArraysDraw { first: 2, count: 6 })));
}

#[test]
fn indexed_draw_checks() {
    let mut session = DrawSession::new();
    session.begin().unwrap();
    assert_eq!(session.check_indexed(true, None, true, 0, 6), Err(GfxError::InvalidHandle));
    assert_eq!(session.check_indexed(true, Some(IndexType::U16), true, 6, 0), Err(GfxError::IndexOutOfBounds));
    assert_eq!(session.check_indexed(true, Some(IndexType::U16), true, 6, 6), Ok(None));
    assert_eq!(
        session.check_indexed(true, Some(IndexType::U16), true, 3, 9),
        Ok(Some(IndexedDraw { count: 6, byte_offset: 6, index_type: IndexType::U16 }))
    );
    assert_eq!(
        session.check_indexed(true, Some(IndexType::U32), true, 3, 9),
        Ok(Some(IndexedDraw { count: 6, byte_offset: 12, index_type: IndexType::U32 }))
    );
}

#[test]
fn texture_units_go_to_located_samplers_in_order() {
    let uniforms = vec![
        ActiveUniform { location: 0, sampler: false },
        ActiveUniform { location: 1, sampler: true },
        ActiveUniform { location: -1, sampler: true },
        ActiveUniform { location: 3, sampler: true },
    ];
    assert_eq!(assign_texture_units(&uniforms), vec![Some(-1), Some(0), None, Some(1)]);
}

#[test]
fn attribute_masks_round_trip() {
    let mask = attribute_mask(&vec![0, 3, 31, 3]);
    assert_eq!(mask, 0x8000_0009);
    assert_eq!(mask_locations(mask), vec![0, 3, 31]);
    assert_eq!(mask_locations(0), Vec::<u32>::new());
}

#[test]
fn draw_mask_union() {
    assert_eq!(DrawMask::color().bitor(DrawMask::depth()), DrawMask { red: true, green: true, blue: true, alpha: true, depth: true, stencil: 0 });
    assert_eq!(DrawMask::none().bitor(DrawMask::stencil()), DrawMask::stencil());
    assert_eq!(DrawMask::all().bitor(DrawMask::none()), DrawMask::all());
}

#[test]
fn draw_builder_merges_primitives_with_the_same_state() {
    let mut builder: DrawBuilder<u32, u8> = DrawBuilder::new();
    {
        let mut p = builder.begin(PrimType::Triangles, 3, 1);
        p.add_vertex(10);
        p.add_vertex(11);
        p.add_vertex(12);
        p.add_index3(0, 1, 2);
    }
    {
        let mut p = builder.begin(PrimType::Triangles, 4, 2);
        p.add_vertices(&[20, 21, 22, 23]);
        p.add_indices_quad();
    }
    assert_eq!(builder.vertices(), &vec![10, 11, 12, 20, 21, 22, 23]);
    assert_eq!(builder.indices(), &vec![0, 1, 2, 3, 4, 5, 3, 5, 6]);
    assert_eq!(builder.commands().len(), 1);
    assert_eq!((builder.commands()[0].index_start, builder.commands()[0].index_end), (0, 9));
    assert_eq!(builder.uniforms().len(), 1);

    {
        let mut p = builder.begin(PrimType::Lines, 2, 1);
        p.add_vertices(&[30, 31]);
        p.add_index2(0, 1);
    }
    assert_eq!(builder.commands().len(), 2);
    assert_eq!((builder.commands()[1].index_start, builder.commands()[1].index_end), (9, 11));
    assert_eq!(builder.indices()[9..], [7, 8]);
}

#[test]
fn draw_builder_prefills_unwritten_indices_with_the_first_vertex() {
    let mut builder: DrawBuilder<u32, u8> = DrawBuilder::new();
    {
        let mut p = builder.begin(PrimType::Triangles, 4, 2);
        p.add_vertices(&[0; 4]);
        p.add_indices_quad();
    }
    {
        let _p = builder.begin(PrimType::Triangles, 3, 1);
    }
    assert_eq!(builder.commands().len(), 1);
    assert_eq!((builder.commands()[0].index_start, builder.commands()[0].index_end), (0, 9));
    assert_eq!(builder.indices(), &vec![0, 1, 2, 0, 2, 3, 4, 4, 4]);
    assert_eq!(builder.vertices().len(), 7);
    assert_eq!(builder.vertices()[4..], [0, 0, 0]);
    assert_eq!(builder.uniforms().len(), 1);
}

#[test]
fn quad_indices_are_offset_by_the_vertices_before_the_batch() {
    let mut builder: DrawBuilder<u32, u8> = DrawBuilder::new();
    for _ in 0..2 {
        let mut p = builder.begin(PrimType::Triangles, 4, 2);
        p.add_vertices(&[7; 4]);
        p.add_indices_quad();
    }
    assert_eq!(builder.indices(), &vec![0, 1, 2, 0, 2, 3, 4, 5, 6, 4, 6, 7]);
    assert!(builder.indices().iter().all(|&i| (i as usize) < builder.vertices().len()));
}

#[test]
fn draw_builder_changed_uniforms_start_a_new_command() {
    let mut builder: DrawBuilder<u32, u8> = DrawBuilder::new();
    {
        let mut p = builder.begin(PrimType::Lines, 2, 1);
        p.add_vertices(&[1, 2]);
        p.add_index2(0, 1);
    }
    builder.uniform = 5;
    {
        let mut p = builder.begin(PrimType::Lines, 2, 1);
        p.add_vertices(&[3, 4]);
        p.add_index2(0, 1);
    }
    assert_eq!(builder.uniforms(), &vec![0, 5]);
    assert_eq!(builder.commands().len(), 2);
    assert_eq!(builder.commands()[1].pipeline_state.uniform_index, 1);
}

#[test]
fn draw_builder_clear_and_resume() {
    let mut builder: DrawBuilder<u32, u8> = DrawBuilder::new();
    builder.blend_mode = BlendMode::Alpha;
    let shared = builder.shared_state();
    assert_eq!(shared.blend_mode, BlendMode::Alpha);
    builder.clear();
    assert_eq!(builder.blend_mode, BlendMode::Solid);
    assert!(builder.vertices().is_empty());
    builder.resume(Some(shared));
    assert_eq!(builder.blend_mode, BlendMode::Alpha);
    {
        let mut p = builder.begin(PrimType::Lines, 2, 1);
        p.add_vertices(&[1, 2]);
        p.add_index2(0, 1);
    }
    builder.resume(None);
    {
        let mut p = builder.begin(PrimType::Lines, 2, 1);
        p.add_vertices(&[3, 4]);
        p.add_index2(0, 1);
    }
    assert_eq!(builder.commands().len(), 2);
}

#[test]
fn gutter_copies_edge_pixels() {
    // Two 2x1 sprites side by side, one byte per pixel: [a b | c d].
    let mut image = vec![1u8, 2, 3, 4];
    let mut info = ImageSize { width: 4, height: 1, bytes_per_pixel: 1 };
    gutter(2, 1, &mut image, &mut info);
    assert_eq!((info.width, info.height), (8, 3));
    let row = vec![1u8, 1, 2, 2, 3, 3, 4, 4];
    let expected: Vec<u8> = row.iter().chain(row.iter()).chain(row.iter()).copied().collect();
    assert_eq!(image, expected);
}

#[test]
fn gutter_drops_partial_sprites_and_keeps_pixel_bytes_together() {
    // A 3x2 image of two-byte pixels with 2x2 sprites: the third column is dropped.
    let mut image = vec![1u8, 10, 2, 20, 9, 90, 3, 30, 4, 40, 9, 90];
    let mut info = ImageSize { width: 3, height: 2, bytes_per_pixel: 2 };
    gutter(2, 2, &mut image, &mut info);
    assert_eq!((info.width, info.height, info.bytes_per_pixel), (4, 4, 2));
    let top = vec![1u8, 10, 1, 10, 2, 20, 2, 20];
    let bottom = vec![3u8, 30, 3, 30, 4, 40, 4, 40];
    let expected: Vec<u8> = [top.clone(), top, bottom.clone(), bottom].concat();
    assert_eq!(image, expected);
}

#[test]
fn gutter_of_too_small_image_is_empty() {
    let mut image = vec![1u8, 2];
    let mut info = ImageSize { width: 2, height: 1, bytes_per_pixel: 1 };
    gutter(4, 4, &mut image, &mut info);
    assert!(image.is_empty());
    assert_eq!((info.width, info.height), (0, 0));
}

#[test]
fn dither_invert() {
    assert_eq!(invert([0u8, 255, 10, 128]), [255u8, 0, 245, 127]);
}

#[test]
fn load_image_error_from_gfx_error() {
    assert_eq!(LoadImageError::from(GfxError::InvalidHandle), LoadImageError::Gfx(GfxError::InvalidHandle));
}

#[test]
fn draw_calls_follow_commands_and_name_their_uniforms() {
    let mut builder: DrawBuilder<u32, u8> = DrawBuilder::new();
    {
        let mut p = builder.begin(PrimType::Lines, 2, 1);
        p.add_vertices(&[1, 2]);
        p.add_index2(0, 1);
    }
    builder.uniform = 5;
    {
        let mut p = builder.begin(PrimType::Lines, 2, 1);
        p.add_vertices(&[3, 4]);
        p.add_index2(0, 1);
    }
    let vertices = VertexBuffer { value: 7 };
    let indices = IndexBuffer { value: 8 };
    let batch = builder.batch(1, 2, vertices, indices);
    let calls = builder.batch_calls(&batch);
    assert_eq!(calls.len(), 1);
    assert_eq!(*calls[0].uniforms, 5);
    assert_eq!((calls[0].index_start, calls[0].index_end), (2, 4));
    assert_eq!((calls[0].vertices, calls[0].indices), (vertices, indices));

    let buffer = DrawBuffer { vertices, indices, uniforms: builder.uniforms().clone(), commands: builder.commands().clone() };
    let all = buffer.calls();
    assert_eq!(all.len(), 2);
    assert_eq!(*all[0].uniforms, 0);
    assert_eq!(*all[1].uniforms, 5);
    let tail = buffer.range_calls(1, 2);
    assert_eq!(tail.len(), 1);
    assert_eq!(tail[0].pipeline_state, buffer.commands[1].pipeline_state);
}
