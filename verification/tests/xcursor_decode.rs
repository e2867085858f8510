//! Decoding Xcursor files: best-fit selection, frame assembly, and the error
//! conditions.

use jay::cursor::CursorError;
use jay::cursor::ScaleSize;
use jay::scale::Scale;
use jay::xcursor::parser_cursor_file;

fn push_u32(v: &mut Vec<u8>, x: u32) {
    v.extend_from_slice(&x.to_le_bytes());
}

const MAGIC: u32 = 0x72756358;
const IMAGE_TYPE: u32 = 0xfffd0002;

struct Chunk {
    size: u32,
    width: u32,
    height: u32,
    xhot: u32,
    yhot: u32,
    delay: u32,
}

/// Builds a well-formed file: a header, one toc entry per chunk, then the
/// chunks with zero pixel bytes.
fn build_file(chunks: &[Chunk]) -> Vec<u8> {
    let mut v = Vec::new();
    push_u32(&mut v, MAGIC);
    push_u32(&mut v, 16);
    push_u32(&mut v, 1);
    push_u32(&mut v, chunks.len() as u32);
    let toc_end = 16 + 12 * chunks.len() as u32;
    let mut pos = toc_end;
    for c in chunks {
        push_u32(&mut v, IMAGE_TYPE);
        push_u32(&mut v, c.size);
        push_u32(&mut v, pos);
        pos += 36 + c.width * c.height * 4;
    }
    for c in chunks {
        push_u32(&mut v, 36);
        push_u32(&mut v, IMAGE_TYPE);
        push_u32(&mut v, c.size);
        push_u32(&mut v, 1);
        push_u32(&mut v, c.width);
        push_u32(&mut v, c.height);
        push_u32(&mut v, c.xhot);
        push_u32(&mut v, c.yhot);
        push_u32(&mut v, c.delay);
        for _ in 0..c.width * c.height * 4 {
            v.push(0xab);
        }
    }
    v
}

fn scale1() -> Scale {
    Scale::from_int(1)
}

#[test]
fn best_fit_prefers_closest_size() {
    // Declared sizes 16, 24 and 32; the target's effective size is 22, so 24
    // wins with distance 2 over 16 (distance 6) and 32 (distance 10).
    let chunks = [
        Chunk { size: 16, width: 1, height: 1, xhot: 0, yhot: 0, delay: 16 },
        Chunk { size: 24, width: 1, height: 1, xhot: 0, yhot: 0, delay: 24 },
        Chunk { size: 32, width: 1, height: 1, xhot: 0, yhot: 0, delay: 32 },
    ];
    let data = build_file(&chunks);
    let res = parser_cursor_file(&data, &vec![scale1()], &vec![22]).unwrap();
    assert_eq!(res.images.len(), 1);
    assert_eq!(res.images[0].len(), 1);
    let (key, img) = &res.images[0][0];
    assert_eq!(*key, ScaleSize { scale: scale1(), size: 22 });
    assert_eq!(img.delay, 24);
    assert!(!res.degraded);
}

#[test]
fn fractional_scale_changes_effective_size() {
    // At scale 110/120 the logical size 24 asks for an effective 22 pixels.
    assert_eq!(Scale::new(110).effective_size(24), 22);
    assert_eq!(Scale::from_int(2).effective_size(24), 48);
    // Rounding is to the nearest integer, halves away from zero.
    assert_eq!(Scale::new(60).effective_size(1), 1);
}

#[test]
fn end_to_end_single_chunk() {
    // A file with magic 0x72756358, header 16, version 1, one toc entry
    // {type 0xfffd0002, size 24, position 36}, and at offset 36 a chunk
    // {header 36, type, subtype 24, version 1, width 2, height 2, hotspot
    // (0, 0), delay 0} followed by 16 pixel bytes.
    let mut data = Vec::new();
    push_u32(&mut data, MAGIC);
    push_u32(&mut data, 16);
    push_u32(&mut data, 1);
    push_u32(&mut data, 1);
    push_u32(&mut data, IMAGE_TYPE);
    push_u32(&mut data, 24);
    push_u32(&mut data, 36);
    // Unused bytes between the table of contents and the chunk.
    push_u32(&mut data, 0);
    push_u32(&mut data, 0);
    push_u32(&mut data, 36);
    push_u32(&mut data, IMAGE_TYPE);
    push_u32(&mut data, 24);
    push_u32(&mut data, 1);
    push_u32(&mut data, 2);
    push_u32(&mut data, 2);
    push_u32(&mut data, 0);
    push_u32(&mut data, 0);
    push_u32(&mut data, 0);
    for i in 0..16 {
        data.push(i as u8);
    }
    let res = parser_cursor_file(&data, &vec![scale1()], &vec![24]).unwrap();
    assert_eq!(res.images.len(), 1);
    let (_, img) = &res.images[0][0];
    assert_eq!(img.width, 2);
    assert_eq!(img.height, 2);
    assert_eq!(img.xhot, 0);
    assert_eq!(img.yhot, 0);
    assert_eq!(img.delay, 0);
    assert_eq!(img.pixels, (0..16).map(|i| i as u8).collect::<Vec<u8>>());
    // Through the template the zero delay is clamped to 1,000,000 ns.
    let tpl = jay::cursor::ServerCursorTemplate::from_decoded(
        &res,
        &vec![jay::cursor::TextureId { id: 1 }],
    );
    match &tpl.var {
        jay::cursor::ServerCursorTemplateVariant::Static(frame) => {
            assert_eq!(frame.delay_ns, 1_000_000);
        },
        jay::cursor::ServerCursorTemplateVariant::Animated(_) => panic!("expected static"),
    }
    let inst = tpl.instantiate(0, 24);
    let e = inst.extents_at_scale(scale1());
    assert_eq!((e.x1, e.y1, e.x2, e.y2), (0, 0, 2, 2));
}

#[test]
fn one_image_per_target() {
    let chunks = [
        Chunk { size: 16, width: 1, height: 1, xhot: 0, yhot: 0, delay: 16 },
        Chunk { size: 32, width: 1, height: 1, xhot: 0, yhot: 0, delay: 32 },
    ];
    let data = build_file(&chunks);
    let scales = vec![scale1(), Scale::from_int(2)];
    let sizes = vec![16];
    let res = parser_cursor_file(&data, &scales, &sizes).unwrap();
    // Two targets: (1, 16) picks the 16 chunk and (2, 16) picks the 32 chunk.
    assert_eq!(res.images.len(), 1);
    assert_eq!(res.images[0].len(), 2);
    assert_eq!(res.images[0][0].0, ScaleSize { scale: scale1(), size: 16 });
    assert_eq!(res.images[0][0].1.delay, 16);
    assert_eq!(res.images[0][1].0, ScaleSize { scale: Scale::from_int(2), size: 16 });
    assert_eq!(res.images[0][1].1.delay, 32);
}

#[test]
fn animated_frames_keep_file_order() {
    let chunks = [
        Chunk { size: 24, width: 1, height: 1, xhot: 0, yhot: 0, delay: 10 },
        Chunk { size: 24, width: 1, height: 1, xhot: 0, yhot: 0, delay: 20 },
        Chunk { size: 24, width: 1, height: 1, xhot: 0, yhot: 0, delay: 30 },
    ];
    let data = build_file(&chunks);
    let res = parser_cursor_file(&data, &vec![scale1()], &vec![24]).unwrap();
    assert_eq!(res.images.len(), 3);
    assert_eq!(res.images[0][0].1.delay, 10);
    assert_eq!(res.images[1][0].1.delay, 20);
    assert_eq!(res.images[2][0].1.delay, 30);
    assert!(!res.degraded);
}

#[test]
fn mismatched_frame_counts_degrade_to_one_frame() {
    // The first target matches the three size-24 chunks, the second target
    // only the single size-48 chunk; the result collapses to one frame.
    let chunks = [
        Chunk { size: 24, width: 1, height: 1, xhot: 0, yhot: 0, delay: 10 },
        Chunk { size: 24, width: 1, height: 1, xhot: 0, yhot: 0, delay: 20 },
        Chunk { size: 24, width: 1, height: 1, xhot: 0, yhot: 0, delay: 30 },
        Chunk { size: 48, width: 1, height: 1, xhot: 0, yhot: 0, delay: 40 },
    ];
    let data = build_file(&chunks);
    let scales = vec![scale1(), Scale::from_int(2)];
    let res = parser_cursor_file(&data, &scales, &vec![24]).unwrap();
    assert!(res.degraded);
    assert_eq!(res.images.len(), 1);
    assert_eq!(res.images[0][0].1.delay, 10);
    assert_eq!(res.images[0][1].1.delay, 40);
}

#[test]
fn bad_magic_is_not_an_xcursor_file() {
    let mut data = Vec::new();
    push_u32(&mut data, 0xdeadbeef);
    push_u32(&mut data, 16);
    push_u32(&mut data, 1);
    push_u32(&mut data, 0);
    let r = parser_cursor_file(&data, &vec![scale1()], &vec![24]);
    assert_eq!(r.unwrap_err(), CursorError::NotAnXcursorFile);
}

#[test]
fn undersized_header_is_not_an_xcursor_file() {
    let mut data = Vec::new();
    push_u32(&mut data, MAGIC);
    push_u32(&mut data, 12);
    push_u32(&mut data, 1);
    push_u32(&mut data, 0);
    let r = parser_cursor_file(&data, &vec![scale1()], &vec![24]);
    assert_eq!(r.unwrap_err(), CursorError::NotAnXcursorFile);
}

#[test]
fn truncated_file_is_an_io_error() {
    let data = vec![0x58, 0x63];
    let r = parser_cursor_file(&data, &vec![scale1()], &vec![24]);
    assert_eq!(r.unwrap_err(), CursorError::Io);
}

#[test]
fn too_many_toc_entries_is_oversized() {
    let mut data = Vec::new();
    push_u32(&mut data, MAGIC);
    push_u32(&mut data, 16);
    push_u32(&mut data, 1);
    push_u32(&mut data, 0x10001);
    let r = parser_cursor_file(&data, &vec![scale1()], &vec![24]);
    assert_eq!(r.unwrap_err(), CursorError::OversizedXcursorFile);
}

#[test]
fn no_image_chunks_is_empty() {
    let mut data = Vec::new();
    push_u32(&mut data, MAGIC);
    push_u32(&mut data, 16);
    push_u32(&mut data, 1);
    push_u32(&mut data, 1);
    // One toc entry of a non-image chunk type.
    push_u32(&mut data, 0xfffe0001);
    push_u32(&mut data, 24);
    push_u32(&mut data, 28);
    let r = parser_cursor_file(&data, &vec![scale1()], &vec![24]);
    assert_eq!(r.unwrap_err(), CursorError::EmptyXcursorFile);
}

#[test]
fn oversized_dimension_is_corrupt() {
    let chunks = [Chunk { size: 24, width: 1, height: 1, xhot: 0, yhot: 0, delay: 0 }];
    let mut data = build_file(&chunks);
    // Overwrite the declared width (chunk offset 36, field offset 16) with a
    // value outside the i32 range.
    let off = 36 + 16;
    data[off..off + 4].copy_from_slice(&0x8000_0000u32.to_le_bytes());
    let r = parser_cursor_file(&data, &vec![scale1()], &vec![24]);
    assert_eq!(r.unwrap_err(), CursorError::CorruptXcursorFile);
}

#[test]
fn chunk_past_end_is_an_io_error() {
    let mut data = Vec::new();
    push_u32(&mut data, MAGIC);
    push_u32(&mut data, 16);
    push_u32(&mut data, 1);
    push_u32(&mut data, 1);
    push_u32(&mut data, IMAGE_TYPE);
    push_u32(&mut data, 24);
    push_u32(&mut data, 9999);
    let r = parser_cursor_file(&data, &vec![scale1()], &vec![24]);
    assert_eq!(r.unwrap_err(), CursorError::Io);
}

#[test]
fn u32_to_i32_rejects_out_of_range() {
    assert_eq!(jay::xcursor::u32_to_i32(7), Ok(7));
    assert_eq!(jay::xcursor::u32_to_i32(i32::MAX as u32), Ok(i32::MAX));
    assert_eq!(
        jay::xcursor::u32_to_i32(i32::MAX as u32 + 1),
        Err(CursorError::CorruptXcursorFile)
    );
}

#[test]
fn larger_declared_header_is_skipped_before_the_toc() {
    // A declared header of 32 bytes: the table of contents starts at offset
    // 32, after 16 bytes of unread header extension.
    let mut data = Vec::new();
    push_u32(&mut data, MAGIC);
    push_u32(&mut data, 32);
    push_u32(&mut data, 1);
    push_u32(&mut data, 1);
    push_u32(&mut data, 0);
    push_u32(&mut data, 0);
    push_u32(&mut data, 0);
    push_u32(&mut data, 0);
    push_u32(&mut data, IMAGE_TYPE);
    push_u32(&mut data, 24);
    push_u32(&mut data, 44);
    push_u32(&mut data, 36);
    push_u32(&mut data, IMAGE_TYPE);
    push_u32(&mut data, 24);
    push_u32(&mut data, 1);
    push_u32(&mut data, 1);
    push_u32(&mut data, 1);
    push_u32(&mut data, 0);
    push_u32(&mut data, 0);
    push_u32(&mut data, 5);
    for _ in 0..4 {
        data.push(0);
    }
    let res = parser_cursor_file(&data, &vec![scale1()], &vec![24]).unwrap();
    assert_eq!(res.images.len(), 1);
    assert_eq!(res.images[0][0].1.delay, 5);
}

#[test]
fn oversized_wins_over_an_unreadable_toc() {
    // The toc count is checked before any table-of-contents byte is read, so
    // a huge declared header does not turn the error into an I/O failure.
    let mut data = Vec::new();
    push_u32(&mut data, MAGIC);
    push_u32(&mut data, 1000);
    push_u32(&mut data, 1);
    push_u32(&mut data, 0x10001);
    let r = parser_cursor_file(&data, &vec![scale1()], &vec![24]);
    assert_eq!(r.unwrap_err(), CursorError::OversizedXcursorFile);
}

#[test]
fn header_past_the_end_is_an_io_error() {
    let mut data = Vec::new();
    push_u32(&mut data, MAGIC);
    push_u32(&mut data, 1000);
    push_u32(&mut data, 1);
    push_u32(&mut data, 1);
    let r = parser_cursor_file(&data, &vec![scale1()], &vec![24]);
    assert_eq!(r.unwrap_err(), CursorError::Io);
}
