//! Templates, instances, rendering and animation timing.

use jay::cursor::candidate_names;
use jay::cursor::default_cursor_size;
use jay::cursor::fallback_pixels;
use jay::cursor::fallback_template;
use jay::cursor::CursorImage;
use jay::cursor::CursorImageScaled;
use jay::cursor::CursorInstance;
use jay::cursor::KnownCursor;
use jay::cursor::Renderer;
use jay::cursor::ScaleSize;
use jay::cursor::ServerCursorTemplate;
use jay::cursor::ServerCursorTemplateVariant;
use jay::cursor::ServerCursors;
use jay::cursor::TextureId;
use jay::rect::Rect;
use jay::scale::Fixed;
use jay::scale::Scale;
use jay::cursor::Cursor;
use jay::cursor::InstantiatedCursorImage;
use jay::cursor::StaticCursor;
use jay::xcursor::parser_cursor_file;

fn push_u32(v: &mut Vec<u8>, x: u32) {
    v.extend_from_slice(&x.to_le_bytes());
}

fn scale1() -> Scale {
    Scale::from_int(1)
}

fn tex(id: u64) -> TextureId {
    TextureId { id }
}

/// A well-formed file holding 1x1 frames of one size, with the given delays.
fn animated_file(size: u32, delays: &[u32]) -> Vec<u8> {
    let mut v = Vec::new();
    push_u32(&mut v, 0x72756358);
    push_u32(&mut v, 16);
    push_u32(&mut v, 1);
    push_u32(&mut v, delays.len() as u32);
    let toc_end = 16 + 12 * delays.len() as u32;
    let mut pos = toc_end;
    for _ in delays {
        push_u32(&mut v, 0xfffd0002);
        push_u32(&mut v, size);
        push_u32(&mut v, pos);
        pos += 36 + 4;
    }
    for d in delays {
        push_u32(&mut v, 36);
        push_u32(&mut v, 0xfffd0002);
        push_u32(&mut v, size);
        push_u32(&mut v, 1);
        push_u32(&mut v, 1);
        push_u32(&mut v, 1);
        push_u32(&mut v, 0);
        push_u32(&mut v, 0);
        push_u32(&mut v, *d);
        for _ in 0..4 {
            v.push(0);
        }
    }
    v
}

#[test]
fn single_frame_builds_a_static_template_with_clamped_delay() {
    let data = animated_file(24, &[0]);
    let res = parser_cursor_file(&data, &vec![scale1()], &vec![24]).unwrap();
    let tpl = ServerCursorTemplate::from_decoded(&res, &vec![tex(1)]);
    match &tpl.var {
        ServerCursorTemplateVariant::Static(img) => {
            // The declared delay of zero is clamped to one millisecond.
            assert_eq!(img.delay_ns, 1_000_000);
            assert_eq!(img.sizes.len(), 1);
            assert_eq!(img.sizes[0].0, ScaleSize { scale: scale1(), size: 24 });
            assert_eq!(img.sizes[0].1.tex, tex(1));
        },
        ServerCursorTemplateVariant::Animated(_) => panic!("expected a static template"),
    }
    assert_eq!(tpl.xcursor.len(), 1);
}

#[test]
fn animation_cycles_back_after_the_summed_delays() {
    // Three frames with delays of 10, 20 and 30 milliseconds: frames become
    // due at 10, 30 and 60 milliseconds, so at exactly 60 the index has
    // cycled back to 0.
    let data = animated_file(24, &[10, 20, 30]);
    let res = parser_cursor_file(&data, &vec![scale1()], &vec![24]).unwrap();
    let tpl = ServerCursorTemplate::from_decoded(&res, &vec![tex(1), tex(2), tex(3)]);
    let mut inst = tpl.instantiate(0, 24);
    assert!(inst.needs_tick());
    match &inst {
        CursorInstance::Animated(a) => {
            assert_eq!(a.idx, 0);
            assert_eq!(a.next, 10_000_000);
        },
        CursorInstance::Static(_) => panic!("expected an animated instance"),
    }
    // Before the first deadline nothing advances and time remains.
    assert_eq!(inst.time_until_tick(5_000_000), 5_000_000);
    inst.tick(5_000_000);
    match &inst {
        CursorInstance::Animated(a) => assert_eq!(a.idx, 0),
        CursorInstance::Static(_) => unreachable!(),
    }
    // time_until_tick is zero exactly when the next tick advances.
    assert_eq!(inst.time_until_tick(10_000_000), 0);
    inst.tick(10_000_000);
    match &inst {
        CursorInstance::Animated(a) => {
            assert_eq!(a.idx, 1);
            assert_eq!(a.next, 30_000_000);
        },
        CursorInstance::Static(_) => unreachable!(),
    }
    inst.tick(30_000_000);
    match &inst {
        CursorInstance::Animated(a) => {
            assert_eq!(a.idx, 2);
            assert_eq!(a.next, 60_000_000);
        },
        CursorInstance::Static(_) => unreachable!(),
    }
    inst.tick(60_000_000);
    match &inst {
        CursorInstance::Animated(a) => {
            assert_eq!(a.idx, 0);
            assert_eq!(a.next, 70_000_000);
        },
        CursorInstance::Static(_) => unreachable!(),
    }
    assert_eq!(inst.time_until_tick(60_000_000), 10_000_000);
}

#[test]
fn fallback_template_reports_one_by_one_extents() {
    // Whatever failed during loading, the fallback instance reports a
    // well-defined 1x1 rectangle for every requested scale.
    let scales = vec![scale1(), Scale::from_int(2)];
    let sizes = vec![16, 24];
    let textures = vec![tex(1), tex(2), tex(3), tex(4)];
    let tpl = fallback_template(&scales, &sizes, &textures);
    assert!(tpl.xcursor.is_empty());
    let inst = tpl.instantiate(0, 24);
    assert!(!inst.needs_tick());
    let r = inst.extents_at_scale(scale1());
    assert_eq!((r.x1, r.y1, r.x2, r.y2), (0, 0, 1, 1));
    let r2 = inst.extents_at_scale(Scale::from_int(2));
    assert_eq!((r2.x1, r2.y1, r2.x2, r2.y2), (0, 0, 1, 1));
    // A scale that was never requested reports an empty rectangle.
    let r3 = inst.extents_at_scale(Scale::from_int(3));
    assert_eq!((r3.x1, r3.y1, r3.x2, r3.y2), (0, 0, 0, 0));
}

#[test]
fn fallback_pixels_are_a_transparent_single_pixel() {
    assert_eq!(fallback_pixels(), vec![0, 0, 0, 0]);
}

#[test]
fn render_records_a_draw_call_at_the_moved_extents() {
    let image = CursorImageScaled::from_bytes(tex(5), 2, 2, 1, 1);
    assert_eq!((image.extents.x1, image.extents.y1), (-1, -1));
    assert_eq!((image.extents.x2, image.extents.y2), (1, 1));
    let frame = CursorImage::from_sizes(0, vec![(ScaleSize { scale: scale1(), size: 24 }, image)]);
    let tpl = ServerCursorTemplate {
        var: ServerCursorTemplateVariant::Static(frame),
        xcursor: Vec::new(),
    };
    let inst = tpl.instantiate(0, 24);
    let mut renderer = Renderer {
        scale: scale1(),
        pixel_extents: Rect::new_sized(0, 0, 100, 100).unwrap(),
        draws: Vec::new(),
    };
    // Hotspot position 10.0, 10.0 in surface coordinates.
    inst.render(&mut renderer, Fixed::new(10 * 256), Fixed::new(10 * 256));
    assert_eq!(renderer.draws.len(), 1);
    assert_eq!(renderer.draws[0].tex, tex(5));
    assert_eq!((renderer.draws[0].x, renderer.draws[0].y), (9, 9));
    // A draw fully outside the visible area is skipped.
    inst.render(&mut renderer, Fixed::new(-100 * 256), Fixed::new(-100 * 256));
    assert_eq!(renderer.draws.len(), 1);
    // The hardware cursor plane draws at the origin.
    inst.render_hardware_cursor(&mut renderer);
    assert_eq!(renderer.draws.len(), 2);
    assert_eq!((renderer.draws[1].x, renderer.draws[1].y), (0, 0));
}

#[test]
fn render_scales_the_position_under_a_fractional_scale() {
    let half_up = Scale::new(180);  // 1.5
    let image = CursorImageScaled::from_bytes(tex(6), 2, 2, 0, 0);
    let frame = CursorImage::from_sizes(0, vec![(ScaleSize { scale: half_up, size: 24 }, image)]);
    let tpl = ServerCursorTemplate {
        var: ServerCursorTemplateVariant::Static(frame),
        xcursor: Vec::new(),
    };
    let inst = tpl.instantiate(0, 24);
    let mut renderer = Renderer {
        scale: half_up,
        pixel_extents: Rect::new_sized(0, 0, 100, 100).unwrap(),
        draws: Vec::new(),
    };
    // 10.0 surface units at scale 1.5 land at pixel 15.
    inst.render(&mut renderer, Fixed::new(10 * 256), Fixed::new(10 * 256));
    assert_eq!(renderer.draws.len(), 1);
    assert_eq!((renderer.draws[0].x, renderer.draws[0].y), (15, 15));
}

#[test]
fn known_cursor_round_trips_through_its_index() {
    assert_eq!(KnownCursor::from_u32(3), Some(KnownCursor::Pointer));
    assert_eq!(KnownCursor::Pointer.index(), 3);
    assert_eq!(KnownCursor::from_u32(35), Some(KnownCursor::AllResize));
    assert_eq!(KnownCursor::from_u32(36), None);
}

#[test]
fn candidate_names_follow_the_priority_lists() {
    assert_eq!(candidate_names(KnownCursor::Pointer), vec!["pointer", "hand2", "hand1"]);
    assert_eq!(candidate_names(KnownCursor::Default), vec!["default", "left_ptr"]);
    assert_eq!(candidate_names(KnownCursor::Wait), vec!["wait", "watch"]);
    assert_eq!(candidate_names(KnownCursor::ZoomIn), vec!["zoom-in"]);
}

#[test]
fn server_cursors_need_an_active_configuration() {
    assert!(ServerCursors::load(&vec![], &vec![24], vec![]).is_none());
    assert!(ServerCursors::load(&vec![scale1()], &vec![], vec![]).is_none());
    let mut templates = Vec::new();
    for i in 0..36 {
        templates.push(fallback_template(&vec![scale1()], &vec![24], &vec![tex(i)]));
    }
    let cursors = ServerCursors::load(&vec![scale1()], &vec![24], templates).unwrap();
    let tpl = cursors.get(KnownCursor::Wait);
    assert!(tpl.xcursor.is_empty());
}

#[test]
fn default_cursor_size_parses_or_falls_back() {
    assert_eq!(default_cursor_size(None), 24);
    assert_eq!(default_cursor_size(Some(&b"32".to_vec())), 32);
    assert_eq!(default_cursor_size(Some(&b"+7".to_vec())), 7);
    assert_eq!(default_cursor_size(Some(&b"4294967295".to_vec())), u32::MAX);
    assert_eq!(default_cursor_size(Some(&b"4294967296".to_vec())), 24);
    assert_eq!(default_cursor_size(Some(&b"".to_vec())), 24);
    assert_eq!(default_cursor_size(Some(&b"12px".to_vec())), 24);
    assert_eq!(default_cursor_size(Some(&b"-3".to_vec())), 24);
}

#[test]
fn fixed_point_coordinates_round_down() {
    assert_eq!(Fixed::new(256).round_down(), 1);
    assert_eq!(Fixed::new(255).round_down(), 0);
    assert_eq!(Fixed::new(-1).round_down(), -1);
    assert_eq!(Fixed::new(-256).round_down(), -1);
    assert_eq!(Fixed::new(-257).round_down(), -2);
}

#[test]
fn error_messages_name_the_failure() {
    assert!(jay::cursor::CursorError::NotFound.message().contains("not be found"));
    assert!(jay::cursor::CursorError::EmptyXcursorFile.message().contains("empty"));
}

#[test]
fn render_skips_scales_without_an_image() {
    let image = CursorImageScaled::from_bytes(tex(8), 2, 2, 0, 0);
    let frame = CursorImage::from_sizes(0, vec![(ScaleSize { scale: scale1(), size: 24 }, image)]);
    let tpl = ServerCursorTemplate {
        var: ServerCursorTemplateVariant::Static(frame),
        xcursor: Vec::new(),
    };
    let inst = tpl.instantiate(0, 24);
    let mut renderer = Renderer {
        scale: Scale::from_int(2),
        pixel_extents: Rect::new_sized(0, 0, 100, 100).unwrap(),
        draws: Vec::new(),
    };
    inst.render(&mut renderer, Fixed::new(0), Fixed::new(0));
    assert!(renderer.draws.is_empty());
    let e = inst.extents_at_scale(Scale::from_int(2));
    assert_eq!((e.x1, e.y1, e.x2, e.y2), (0, 0, 0, 0));
}

#[test]
fn degraded_decode_builds_a_static_template() {
    // Two chunks serve the first target but only one serves the second, so
    // decoding degrades to a single frame and the template is static.
    let mut data = Vec::new();
    push_u32(&mut data, 0x72756358);
    push_u32(&mut data, 16);
    push_u32(&mut data, 1);
    push_u32(&mut data, 3);
    let chunks = [(24u32, 10u32), (24, 20), (48, 30)];
    let mut pos = 16 + 12 * 3;
    for (size, _) in &chunks {
        push_u32(&mut data, 0xfffd0002);
        push_u32(&mut data, *size);
        push_u32(&mut data, pos);
        pos += 36 + 4;
    }
    for (size, delay) in &chunks {
        push_u32(&mut data, 36);
        push_u32(&mut data, 0xfffd0002);
        push_u32(&mut data, *size);
        push_u32(&mut data, 1);
        push_u32(&mut data, 1);
        push_u32(&mut data, 1);
        push_u32(&mut data, 0);
        push_u32(&mut data, 0);
        push_u32(&mut data, *delay);
        for _ in 0..4 {
            data.push(0);
        }
    }
    let scales = vec![scale1(), Scale::from_int(2)];
    let res = parser_cursor_file(&data, &scales, &vec![24]).unwrap();
    assert!(res.degraded);
    let tpl = ServerCursorTemplate::from_decoded(&res, &vec![tex(1), tex(2)]);
    assert!(matches!(tpl.var, ServerCursorTemplateVariant::Static(_)));
}

#[test]
fn the_cursor_trait_dispatches_to_the_variants() {
    let image = CursorImageScaled::from_bytes(tex(9), 1, 1, 0, 0);
    let sc = StaticCursor {
        image: InstantiatedCursorImage { delay_ns: 1_000_000, scales: vec![(scale1(), image)] },
    };
    assert!(!Cursor::needs_tick(&sc));
    let e = Cursor::extents_at_scale(&sc, scale1());
    assert_eq!((e.x1, e.y1, e.x2, e.y2), (0, 0, 1, 1));
    let mut renderer = Renderer {
        scale: scale1(),
        pixel_extents: Rect::new_sized(0, 0, 10, 10).unwrap(),
        draws: Vec::new(),
    };
    Cursor::render_hardware_cursor(&sc, &mut renderer);
    assert_eq!(renderer.draws.len(), 1);
    // The lifecycle notifications of the trait are no-ops for both variants.
    Cursor::handle_set(&sc);
    Cursor::handle_unset(&sc);
    Cursor::set_visible(&sc, true);
}

#[test]
fn clock_values_before_the_epoch_do_not_advance() {
    // A monotonic clock never runs before the epoch, but even then the
    // remaining time and the advance condition agree: nothing is due.
    let data = animated_file(24, &[10, 20]);
    let res = parser_cursor_file(&data, &vec![scale1()], &vec![24]).unwrap();
    let tpl = ServerCursorTemplate::from_decoded(&res, &vec![tex(1), tex(2)]);
    let mut inst = tpl.instantiate(100, 24);
    assert_eq!(inst.time_until_tick(50), 10_000_000);
    inst.tick(50);
    match &inst {
        CursorInstance::Animated(a) => assert_eq!(a.idx, 0),
        CursorInstance::Static(_) => unreachable!(),
    }
}
