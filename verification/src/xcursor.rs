//! Decoder for the Xcursor binary container: a little-endian header, a table
//! of contents, and per-size image chunks. Decoding selects, for every
//! requested (scale, size) target, the chunks whose declared size fits the
//! target's effective size best.

use vstd::prelude::*;
use vstd::seq_lib::group_seq_properties;

use crate::cursor::CursorError;
use crate::cursor::ScaleSize;
use crate::scale::Scale;

verus! {

/// The magic number every Xcursor file starts with.
pub const XCURSOR_MAGIC: u32 = 0x72756358;

/// The chunk type of image chunks; chunks of other types are skipped.
pub const XCURSOR_IMAGE_TYPE: u32 = 0xfffd0002;

/// The size of the file header in bytes.
pub const HEADER_SIZE: u32 = 16;

/// The largest accepted number of table-of-contents entries.
pub const MAX_TOC_COUNT: u32 = 0x10000;

/// A single decoded cursor image: dimensions, hotspot, per-frame delay in
/// milliseconds, and the raw pixel buffer of `width * height * 4` bytes.
#[derive(Default, Debug)]
pub struct XCursorImage {
    pub width: i32,
    pub height: i32,
    pub xhot: i32,
    pub yhot: i32,
    pub delay: u32,
    pub pixels: Vec<u8>,
}

/// A table-of-contents entry of the image chunk type: the pixel size the
/// chunk encodes and its absolute byte offset.
#[derive(Copy, Clone, Debug, PartialEq, Eq, Structural)]
pub struct TocEntry {
    pub size: u32,
    pub position: u32,
}

/// The decoded file: one map per animation frame from requested target to its
/// best-fitting image. `degraded` records that the per-target frame counts
/// disagreed and the result was collapsed to a single frame.
#[derive(Debug)]
pub struct OpenCursorResult {
    pub images: Vec<Vec<(ScaleSize, XCursorImage)>>,
    pub degraded: bool,
}

/// The little-endian 32-bit word at byte offset `off`.
pub open spec fn le_u32_spec(d: Seq<u8>, off: int) -> u32
    recommends
        0 <= off,
        off + 4 <= d.len(),
{
    (d[off] + d[off + 1] * 0x100 + d[off + 2] * 0x10000 + d[off + 3] * 0x1000000) as u32
}

/// Reads the little-endian 32-bit word at byte offset `off`.
pub fn read_u32_at(d: &Vec<u8>, off: usize) -> (r: u32)
    requires
        off + 4 <= d@.len(),
    ensures
        r == le_u32_spec(d@, off as int),
{
    let _len = d.len();
    let b0 = d[off] as u32;
    let b1 = d[off + 1] as u32;
    let b2 = d[off + 2] as u32;
    let b3 = d[off + 3] as u32;
    b0 + b1 * 0x100 + b2 * 0x10000 + b3 * 0x1000000
}

/// Converts a declared 32-bit dimension to `i32`, failing with
/// `CorruptXcursorFile` when it does not fit.
pub fn u32_to_i32(n: u32) -> (r: Result<i32, CursorError>)
    ensures
        match r {
            Ok(v) => n <= i32::MAX && v == n,
            Err(e) => n > i32::MAX && e == CursorError::CorruptXcursorFile,
        },
{
    if n <= i32::MAX as u32 {
        Ok(n as i32)
    } else {
        Err(CursorError::CorruptXcursorFile)
    }
}

/// The file's magic number.
pub open spec fn spec_magic(d: Seq<u8>) -> u32 {
    le_u32_spec(d, 0)
}

/// The file's declared header size.
pub open spec fn spec_header(d: Seq<u8>) -> u32 {
    le_u32_spec(d, 4)
}

/// The file's declared number of table-of-contents entries.
pub open spec fn spec_ntoc(d: Seq<u8>) -> u32 {
    le_u32_spec(d, 12)
}

/// Whether the magic number and header size identify an Xcursor file.
pub open spec fn header_plausible(d: Seq<u8>) -> bool {
    d.len() >= 8 && spec_magic(d) == XCURSOR_MAGIC && spec_header(d) >= HEADER_SIZE
}

/// The byte offset of the table of contents: it follows the declared header,
/// so any bytes past the sixteen read header fields are skipped.
pub open spec fn spec_toc_base(d: Seq<u8>) -> int {
    spec_header(d) as int
}

/// Whether the whole declared table of contents lies within the file.
pub open spec fn toc_readable(d: Seq<u8>) -> bool {
    &&& d.len() >= 16
    &&& spec_toc_base(d) + 12 * spec_ntoc(d) <= d.len()
}

/// The `i`-th raw table-of-contents triple: chunk type, size, position.
pub open spec fn spec_toc_raw(d: Seq<u8>, i: int) -> (u32, u32, u32) {
    let base = spec_toc_base(d) + 12 * i;
    (le_u32_spec(d, base), le_u32_spec(d, base + 4), le_u32_spec(d, base + 8))
}

/// The image-type entries among the first `n` table-of-contents entries, in
/// file order.
pub open spec fn image_entries_upto(d: Seq<u8>, n: int) -> Seq<TocEntry>
    decreases n,
{
    if n <= 0 {
        Seq::empty()
    } else {
        let prev = image_entries_upto(d, n - 1);
        let raw = spec_toc_raw(d, n - 1);
        if raw.0 == XCURSOR_IMAGE_TYPE {
            prev.push(TocEntry { size: raw.1, position: raw.2 })
        } else {
            prev
        }
    }
}

/// All image-type entries of the table of contents, in file order.
pub open spec fn image_entries(d: Seq<u8>) -> Seq<TocEntry> {
    image_entries_upto(d, spec_ntoc(d) as int)
}

/// The distance between a declared size and a target's effective size.
pub open spec fn size_dist(s: u32, t: u32) -> int {
    if s >= t {
        s - t
    } else {
        t - s
    }
}

/// Index `i` holds the first entry whose size is closest to the target: no
/// entry is strictly closer, and every earlier entry is strictly farther.
pub open spec fn is_first_best(es: Seq<TocEntry>, t: u32, i: int) -> bool {
    &&& 0 <= i < es.len()
    &&& forall|j: int| 0 <= j < es.len() ==> size_dist(#[trigger] es[j].size, t) >= size_dist(
        es[i].size,
        t,
    )
    &&& forall|j: int| 0 <= j < i ==> size_dist(#[trigger] es[j].size, t) > size_dist(es[i].size, t)
}

/// The best-fitting size for a target: the size of the first entry whose
/// distance to the target is minimal. Ties in distance keep the
/// first-encountered size.
pub open spec fn best_size(es: Seq<TocEntry>, t: u32) -> u32 {
    es[choose|i: int| is_first_best(es, t, i)].size
}

/// The entries of a given size.
pub open spec fn best_filter(es: Seq<TocEntry>, best: u32) -> Seq<TocEntry> {
    es.filter(|e: TocEntry| e.size == best)
}

/// The positions of the entries of a given size, in file order.
pub open spec fn filtered_positions(es: Seq<TocEntry>, best: u32) -> Seq<u32> {
    best_filter(es, best).map_values(|e: TocEntry| e.position)
}

/// The chunk positions serving a target: the positions of all entries whose
/// size is the target's best-fitting size, in file order.
pub open spec fn target_positions(es: Seq<TocEntry>, t: u32) -> Seq<u32> {
    filtered_positions(es, best_size(es, t))
}

/// In a non-empty entry list some index is first-best, and all first-best
/// indexes agree.
pub proof fn lemma_first_best_exists(es: Seq<TocEntry>, t: u32)
    requires
        es.len() > 0,
    ensures
        exists|i: int| is_first_best(es, t, i),
        forall|i: int, j: int| is_first_best(es, t, i) && is_first_best(es, t, j) ==> i == j,
    decreases es.len(),
{
    if es.len() == 1 {
        assert(is_first_best(es, t, 0));
    } else {
        let prefix = es.drop_last();
        lemma_first_best_exists(prefix, t);
        let i = choose|i: int| is_first_best(prefix, t, i);
        assert(forall|j: int| 0 <= j < es.len() - 1 ==> es[j] == prefix[j]);
        if size_dist(es.last().size, t) < size_dist(prefix[i].size, t) {
            assert(is_first_best(es, t, es.len() - 1));
        } else {
            assert(is_first_best(es, t, i));
        }
    }
}

/// A target's position list is non-empty whenever any image entry exists.
pub proof fn lemma_target_positions_nonempty(es: Seq<TocEntry>, t: u32)
    requires
        es.len() > 0,
    ensures
        target_positions(es, t).len() > 0,
{
    broadcast use group_seq_properties;

    lemma_first_best_exists(es, t);
    let i = choose|i: int| is_first_best(es, t, i);
    assert(es[i].size == best_size(es, t));
    let pred = |e: TocEntry| e.size == best_size(es, t);
    es.lemma_filter_contains(pred, i);
    assert(es.filter(pred).len() > 0);
}

/// The effective pixel size a target asks for.
pub open spec fn spec_eff(t: ScaleSize) -> u32 {
    t.scale.spec_effective_size(t.size)
}

/// The requested targets: the cross product of scales and sizes, scales
/// outermost.
pub open spec fn spec_targets(scales: Seq<Scale>, sizes: Seq<u32>) -> Seq<ScaleSize> {
    Seq::new(
        scales.len() * sizes.len(),
        |k: int| ScaleSize { scale: scales[k / sizes.len() as int], size: sizes[k % sizes.len() as int] },
    )
}

/// The chunk positions serving a target in this file.
pub open spec fn tpos(d: Seq<u8>, t: ScaleSize) -> Seq<u32> {
    target_positions(image_entries(d), spec_eff(t))
}

/// The declared width of the image chunk at `pos`.
pub open spec fn chunk_width(d: Seq<u8>, pos: u32) -> u32 {
    le_u32_spec(d, pos + 16)
}

/// The declared height of the image chunk at `pos`.
pub open spec fn chunk_height(d: Seq<u8>, pos: u32) -> u32 {
    le_u32_spec(d, pos + 20)
}

/// The image chunk at `pos` lies fully within the file and its dimensions
/// are representable.
pub open spec fn chunk_wf(d: Seq<u8>, pos: u32) -> bool {
    &&& pos + 36 <= d.len()
    &&& chunk_width(d, pos) <= i32::MAX
    &&& chunk_height(d, pos) <= i32::MAX
    &&& le_u32_spec(d, pos + 24) <= i32::MAX
    &&& le_u32_spec(d, pos + 28) <= i32::MAX
    &&& pos + 36 + 4 * chunk_width(d, pos) * chunk_height(d, pos) <= d.len()
}

/// `img` is the image stored in the chunk at `pos`: the declared dimensions,
/// hotspot and delay, followed by `width * height * 4` pixel bytes.
pub open spec fn image_matches(d: Seq<u8>, pos: u32, img: XCursorImage) -> bool {
    &&& img.width == chunk_width(d, pos)
    &&& img.height == chunk_height(d, pos)
    &&& img.xhot == le_u32_spec(d, pos + 24)
    &&& img.yhot == le_u32_spec(d, pos + 28)
    &&& img.delay == le_u32_spec(d, pos + 32)
    &&& img.pixels@ == d.subrange(
        pos + 36,
        pos + 36 + 4 * chunk_width(d, pos) * chunk_height(d, pos),
    )
}

/// Whether the per-target frame counts disagree, in which case the result is
/// degraded to a single frame.
pub open spec fn frames_degraded(d: Seq<u8>, tgts: Seq<ScaleSize>) -> bool {
    &&& tpos(d, tgts[0]).len() > 1
    &&& exists|k: int| 0 <= k < tgts.len() && tpos(d, #[trigger] tgts[k]).len() != tpos(
        d,
        tgts[0],
    ).len()
}

/// The number of frames decoding yields.
pub open spec fn spec_frame_count(d: Seq<u8>, tgts: Seq<ScaleSize>) -> int {
    if frames_degraded(d, tgts) {
        1
    } else {
        tpos(d, tgts[0]).len() as int
    }
}

/// The header checks pass, the table of contents is readable, and at least
/// one image chunk and one target exist.
pub open spec fn phase_ok(d: Seq<u8>, tgts: Seq<ScaleSize>) -> bool {
    &&& header_plausible(d)
    &&& d.len() >= 16
    &&& spec_ntoc(d) <= MAX_TOC_COUNT
    &&& toc_readable(d)
    &&& tgts.len() > 0
    &&& image_entries(d).len() > 0
}

/// A file is well-formed for a target list when the header checks pass, the
/// table of contents is readable, at least one image chunk and one target
/// exist, and every chunk any target selects is well-formed.
pub open spec fn file_wf(d: Seq<u8>, tgts: Seq<ScaleSize>) -> bool {
    &&& phase_ok(d, tgts)
    &&& forall|k: int, f: int|
        0 <= k < tgts.len() && 0 <= f < tpos(d, tgts[k]).len() ==> chunk_wf(
            d,
            #[trigger] tpos(d, tgts[k])[f],
        )
}

impl Clone for XCursorImage {
    /// Clones the image, pixel buffer included.
    fn clone(&self) -> (r: Self)
        ensures
            r.width == self.width,
            r.height == self.height,
            r.xhot == self.xhot,
            r.yhot == self.yhot,
            r.delay == self.delay,
            r.pixels@ == self.pixels@,
    {
        let pixels = clone_bytes(&self.pixels);
        XCursorImage {
            width: self.width,
            height: self.height,
            xhot: self.xhot,
            yhot: self.yhot,
            delay: self.delay,
            pixels,
        }
    }
}

/// Copies a byte vector.
fn clone_bytes(v: &Vec<u8>) -> (r: Vec<u8>)
    ensures
        r@ == v@,
{
    let mut r: Vec<u8> = Vec::new();
    let mut i: usize = 0;
    while i < v.len()
        invariant
            i <= v@.len(),
            r@ == v@.subrange(0, i as int),
        decreases v@.len() - i,
    {
        r.push(v[i]);
        i = i + 1;
        proof {
            assert(r@ =~= v@.subrange(0, i as int));
        }
    }
    proof {
        assert(r@ =~= v@);
    }
    r
}

/// Copies `n` bytes starting at `start`.
fn copy_range(d: &Vec<u8>, start: usize, n: usize) -> (r: Vec<u8>)
    requires
        start + n <= d@.len(),
    ensures
        r@ == d@.subrange(start as int, start + n),
{
    let _dlen = d.len();
    let mut r: Vec<u8> = Vec::new();
    let mut i: usize = 0;
    while i < n
        invariant
            i <= n,
            start + n <= d@.len(),
            d@.len() <= usize::MAX,
            r@ == d@.subrange(start as int, start + i),
        decreases n - i,
    {
        r.push(d[start + i]);
        i = i + 1;
        proof {
            assert(r@ =~= d@.subrange(start as int, start + i));
        }
    }
    r
}

/// Collects the image-type entries of the table of contents, in file order.
fn parse_toc(d: &Vec<u8>, toc_base: usize, ntoc: u32) -> (r: Vec<TocEntry>)
    requires
        toc_base == spec_toc_base(d@),
        toc_base + 12 * ntoc <= d@.len(),
    ensures
        r@ == image_entries_upto(d@, ntoc as int),
{
    let _dlen = d.len();
    let mut r: Vec<TocEntry> = Vec::new();
    let mut i: u32 = 0;
    while i < ntoc
        invariant
            i <= ntoc,
            toc_base == spec_toc_base(d@),
            toc_base + 12 * ntoc <= d@.len(),
            d@.len() <= usize::MAX,
            r@ == image_entries_upto(d@, i as int),
        decreases ntoc - i,
    {
        let base = toc_base + 12 * (i as usize);
        let chunk_type = read_u32_at(d, base);
        let size = read_u32_at(d, base + 4);
        let position = read_u32_at(d, base + 8);
        proof {
            assert(spec_toc_raw(d@, i as int) == (chunk_type, size, position));
        }
        if chunk_type == XCURSOR_IMAGE_TYPE {
            r.push(TocEntry { size, position });
        }
        i = i + 1;
    }
    r
}

/// Finds the best-fitting declared size for a target's effective size:
/// the size of the first entry at minimal distance.
fn find_best(entries: &Vec<TocEntry>, t: u32) -> (r: u32)
    requires
        entries@.len() > 0,
    ensures
        r == best_size(entries@, t),
{
    let mut best_idx: usize = 0;
    let mut best_sz: u32 = entries[0].size;
    let mut best_d: u32 = dist_exec(entries[0].size, t);
    let mut i: usize = 1;
    while i < entries.len()
        invariant
            1 <= i <= entries@.len(),
            best_idx < i,
            best_sz == entries@[best_idx as int].size,
            best_d == size_dist(best_sz, t),
            forall|j: int| 0 <= j < i ==> size_dist(#[trigger] entries@[j].size, t) >= best_d,
            forall|j: int| 0 <= j < best_idx ==> size_dist(#[trigger] entries@[j].size, t) > best_d,
        decreases entries@.len() - i,
    {
        let d_i = dist_exec(entries[i].size, t);
        if d_i < best_d {
            best_idx = i;
            best_sz = entries[i].size;
            best_d = d_i;
        }
        i = i + 1;
    }
    proof {
        assert(is_first_best(entries@, t, best_idx as int));
        lemma_first_best_exists(entries@, t);
        let c = choose|i: int| is_first_best(entries@, t, i);
        assert(c == best_idx as int);
    }
    best_sz
}

/// The distance between a declared size and an effective size.
fn dist_exec(s: u32, t: u32) -> (r: u32)
    ensures
        r == size_dist(s, t),
{
    if s >= t {
        s - t
    } else {
        t - s
    }
}

proof fn lemma_filtered_positions_push(es: Seq<TocEntry>, best: u32, x: TocEntry)
    ensures
        x.size == best ==> filtered_positions(es.push(x), best) == filtered_positions(
            es,
            best,
        ).push(x.position),
        x.size != best ==> filtered_positions(es.push(x), best) == filtered_positions(es, best),
{
    reveal(Seq::filter);
    let pred = |e: TocEntry| e.size == best;
    assert(es.push(x).drop_last() =~= es);
    assert(es.push(x).last() == x);
    if x.size == best {
        assert(best_filter(es.push(x), best) =~= best_filter(es, best).push(x));
        assert(filtered_positions(es.push(x), best) =~= filtered_positions(es, best).push(
            x.position,
        ));
    } else {
        assert(best_filter(es.push(x), best) =~= best_filter(es, best));
    }
}

/// Collects the positions of all entries whose size is `best`, in file order.
fn positions_for(entries: &Vec<TocEntry>, best: u32) -> (r: Vec<u32>)
    ensures
        r@ == filtered_positions(entries@, best),
{
    let mut r: Vec<u32> = Vec::new();
    let mut i: usize = 0;
    while i < entries.len()
        invariant
            i <= entries@.len(),
            r@ == filtered_positions(entries@.take(i as int), best),
        decreases entries@.len() - i,
    {
        proof {
            assert(entries@.take(i + 1).drop_last() =~= entries@.take(i as int));
            assert(entries@.take(i + 1) =~= entries@.take(i as int).push(entries@[i as int]));
            lemma_filtered_positions_push(entries@.take(i as int), best, entries@[i as int]);
        }
        if entries[i].size == best {
            r.push(entries[i].position);
        }
        i = i + 1;
    }
    proof {
        assert(entries@.take(entries@.len() as int) =~= entries@);
    }
    r
}

/// Whether a position is already recorded.
fn contains_u32(v: &Vec<u32>, x: u32) -> (r: bool)
    ensures
        r == v@.contains(x),
{
    let mut i: usize = 0;
    while i < v.len()
        invariant
            i <= v@.len(),
            forall|j: int| 0 <= j < i ==> v@[j] != x,
        decreases v@.len() - i,
    {
        if v[i] == x {
            return true;
        }
        i = i + 1;
    }
    false
}

/// The accumulated per-target state of the table-of-contents scan.
struct Target {
    positions: Vec<u32>,
    effective_size: u32,
    size: u32,
    scale: Scale,
}

/// The position is selected by at least one target.
spec fn from_some_target(targets: Seq<Target>, p: u32) -> bool {
    exists|q: int| 0 <= q < targets.len() && (#[trigger] targets[q]).positions@.contains(p)
}

/// Every recorded position is selected by some target.
spec fn uniq_from_targets(uniq: Seq<u32>, targets: Seq<Target>) -> bool {
    forall|a: int| 0 <= a < uniq.len() ==> from_some_target(targets, #[trigger] uniq[a])
}

/// The scan state of a target matches the file and the requested pair.
spec fn target_matches(t: Target, ts: ScaleSize, d: Seq<u8>) -> bool {
    &&& t.scale == ts.scale
    &&& t.size == ts.size
    &&& t.effective_size == spec_eff(ts)
    &&& t.positions@ == tpos(d, ts)
}

/// The four declared dimension words of the chunk at `pos` fit in `i32`.
pub open spec fn chunk_dims_ok(d: Seq<u8>, pos: u32) -> bool {
    &&& chunk_width(d, pos) <= i32::MAX
    &&& chunk_height(d, pos) <= i32::MAX
    &&& le_u32_spec(d, pos + 24) <= i32::MAX
    &&& le_u32_spec(d, pos + 28) <= i32::MAX
}

/// Some selected chunk runs past the end of the file, or an earlier read
/// already failed.
pub open spec fn io_plausible(d: Seq<u8>, tgts: Seq<ScaleSize>) -> bool {
    ||| d.len() < 8
    ||| (header_plausible(d) && d.len() < 16)
    ||| (header_plausible(d) && !toc_readable(d))
    ||| exists|k: int, f: int|
        0 <= k < tgts.len() && 0 <= f < tpos(d, tgts[k]).len() && {
            let p = #[trigger] tpos(d, tgts[k])[f];
            ||| p + 36 > d.len()
            ||| (chunk_dims_ok(d, p) && p + 36 + 4 * chunk_width(d, p) * chunk_height(d, p)
                > d.len())
        }
}

/// Some selected chunk declares a dimension that does not fit in `i32`.
pub open spec fn corrupt_plausible(d: Seq<u8>, tgts: Seq<ScaleSize>) -> bool {
    exists|k: int, f: int|
        0 <= k < tgts.len() && 0 <= f < tpos(d, tgts[k]).len() && {
            let p = #[trigger] tpos(d, tgts[k])[f];
            p + 36 <= d.len() && !chunk_dims_ok(d, p)
        }
}

/// Pushing a fresh element keeps every element reachable and keeps the
/// sequence free of duplicates.
proof fn lemma_push_keeps_contents(s: Seq<u32>, x: u32)
    requires
        s.no_duplicates(),
        !s.contains(x),
    ensures
        forall|y: u32| s.contains(y) ==> #[trigger] s.push(x).contains(y),
        s.push(x).contains(x),
        s.push(x).no_duplicates(),
{
    assert(s.push(x)[s.len() as int] == x);
    assert forall|y: u32| s.contains(y) implies #[trigger] s.push(x).contains(y) by {
        let w = choose|w: int| 0 <= w < s.len() && s[w] == y;
        assert(s.push(x)[w] == y);
    }
}

/// Reads the image chunk at `pos`: the dimension, hotspot and delay words,
/// then the pixel bytes. Fails with `Io` when a read runs past the end of the
/// file and with `CorruptXcursorFile` when a dimension does not fit in `i32`.
fn read_chunk(data: &Vec<u8>, pos: u32) -> (r: Result<XCursorImage, CursorError>)
    ensures
        match r {
            Ok(img) => chunk_wf(data@, pos) && image_matches(data@, pos, img),
            Err(e) => {
                &&& !chunk_wf(data@, pos)
                &&& (e == CursorError::CorruptXcursorFile || e == CursorError::Io)
                &&& (e == CursorError::CorruptXcursorFile ==> pos + 36 <= data@.len()
                    && !chunk_dims_ok(data@, pos))
                &&& (e == CursorError::Io ==> (pos + 36 > data@.len() || (chunk_dims_ok(
                    data@,
                    pos,
                ) && pos + 36 + 4 * chunk_width(data@, pos) * chunk_height(data@, pos)
                    > data@.len())))
            },
        },
{
    let ghost d = data@;
    let dlen = data.len();
    if (pos as u64) + 36 > dlen as u64 {
        return Err(CursorError::Io);
    }
    let p = pos as usize;
    let width_u = read_u32_at(data, p + 16);
    let height_u = read_u32_at(data, p + 20);
    let xhot_u = read_u32_at(data, p + 24);
    let yhot_u = read_u32_at(data, p + 28);
    let delay = read_u32_at(data, p + 32);
    if width_u > i32::MAX as u32 || height_u > i32::MAX as u32 || xhot_u > i32::MAX as u32
        || yhot_u > i32::MAX as u32 {
        return Err(CursorError::CorruptXcursorFile);
    }
    let width = width_u as i32;
    let height = height_u as i32;
    let xhot = xhot_u as i32;
    let yhot = yhot_u as i32;
    proof {
        assert(4 * (width_u as int) * (height_u as int) <= 4 * 0x7fffffffint * 0x7fffffffint)
            by (nonlinear_arith)
            requires
                0 <= width_u <= 0x7fffffffint,
                0 <= height_u <= 0x7fffffffint,
        ;
        assert(0 <= (width_u as int) * (height_u as int)) by (nonlinear_arith)
            requires
                0 <= width_u,
                0 <= height_u,
        ;
    }
    let num_bytes: u64 = 4u64 * (width as u64) * (height as u64);
    if num_bytes > (dlen as u64) - ((p as u64) + 36) {
        return Err(CursorError::Io);
    }
    let pixels = copy_range(data, p + 36, num_bytes as usize);
    Ok(XCursorImage { width, height, xhot, yhot, delay, pixels })
}

/// Looks up the decoded image recorded for a position.
fn lookup_image<'a>(images: &'a Vec<(u32, XCursorImage)>, pos: u32) -> (r: &'a XCursorImage)
    requires
        exists|a: int| 0 <= a < images@.len() && images@[a].0 == pos,
    ensures
        exists|a: int| 0 <= a < images@.len() && images@[a].0 == pos && *r == images@[a].1,
{
    let mut i: usize = 0;
    while i < images.len()
        invariant
            i <= images@.len(),
            exists|a: int| 0 <= a < images@.len() && images@[a].0 == pos,
            forall|j: int| 0 <= j < i ==> images@[j].0 != pos,
        decreases images@.len() - i,
    {
        if images[i].0 == pos {
            return &images[i].1;
        }
        i = i + 1;
    }
    proof {
        assert(false);
    }
    vstd::pervasive::unreached()
}

/// A successfully decoded result matches the file: one map per frame, each
/// holding, per requested target in order, the image stored at the target's
/// best-fit position for that frame.
pub open spec fn decode_ok(d: Seq<u8>, tgts: Seq<ScaleSize>, res: OpenCursorResult) -> bool {
    &&& res.images@.len() == spec_frame_count(d, tgts)
    &&& forall|f: int|
        0 <= f < res.images@.len() ==> (#[trigger] res.images@[f])@.len() == tgts.len()
    &&& forall|f: int, k: int|
        0 <= f < res.images@.len() && 0 <= k < tgts.len() ==> {
            &&& (#[trigger] res.images@[f]@[k]).0 == tgts[k]
            &&& image_matches(d, tpos(d, tgts[k])[f], res.images@[f]@[k].1)
        }
    &&& res.degraded == frames_degraded(d, tgts)
}

/// Everything decoding promises about its outcome for a file and the targets
/// derived from the requested scales and sizes: success exactly on well-formed
/// files, each error kind tied to its condition, and the successful result's
/// exact content.
pub open spec fn decode_post(
    d: Seq<u8>,
    scales: Seq<Scale>,
    sizes: Seq<u32>,
    r: Result<OpenCursorResult, CursorError>,
) -> bool {
    let tgts = spec_targets(scales, sizes);
    &&& (r is Ok <==> file_wf(d, tgts))
    &&& (r == Err::<OpenCursorResult, CursorError>(CursorError::NotAnXcursorFile) <==> (d.len()
        >= 8 && !header_plausible(d)))
    &&& (r == Err::<OpenCursorResult, CursorError>(CursorError::OversizedXcursorFile) <==> (
    header_plausible(d) && d.len() >= 16 && spec_ntoc(d) > MAX_TOC_COUNT))
    &&& (r == Err::<OpenCursorResult, CursorError>(CursorError::EmptyXcursorFile) <==> (
    header_plausible(d) && d.len() >= 16 && spec_ntoc(d) <= MAX_TOC_COUNT && toc_readable(d) && (
    tgts.len() == 0 || image_entries(d).len() == 0)))
    &&& (r == Err::<OpenCursorResult, CursorError>(CursorError::Io) ==> io_plausible(d, tgts))
    &&& (r == Err::<OpenCursorResult, CursorError>(CursorError::CorruptXcursorFile)
        ==> corrupt_plausible(d, tgts))
    &&& r != Err::<OpenCursorResult, CursorError>(CursorError::NotFound)
    &&& r != Err::<OpenCursorResult, CursorError>(CursorError::ImportError)
    &&& match r {
        Ok(res) => decode_ok(d, tgts, res),
        Err(_) => true,
    }
}

/// Decodes an Xcursor file for the cross product of the requested scales and
/// sizes.
///
/// On success the result holds, per animation frame, one image per requested
/// target: the image chunk whose declared size is closest (first-encountered
/// on ties) to the target's effective size. When the per-target frame counts
/// disagree, the result is degraded to a single frame and marked so.
#[verifier::rlimit(100)]
pub fn parser_cursor_file(data: &Vec<u8>, scales: &Vec<Scale>, sizes: &Vec<u32>) -> (r: Result<
    OpenCursorResult,
    CursorError,
>)
    requires
        forall|i: int| 0 <= i < scales@.len() ==> (#[trigger] scales@[i]).wf(),
    ensures
        decode_post(data@, scales@, sizes@, r),
{
    let ghost d = data@;
    let ghost tgts = spec_targets(scales@, sizes@);
    let dlen = data.len();
    if dlen < 8 {
        return Err(CursorError::Io);
    }
    let magic = read_u32_at(data, 0);
    let header = read_u32_at(data, 4);
    if magic != XCURSOR_MAGIC || header < HEADER_SIZE {
        return Err(CursorError::NotAnXcursorFile);
    }
    if dlen < 16 {
        return Err(CursorError::Io);
    }
    let ntoc = read_u32_at(data, 12);
    if ntoc > MAX_TOC_COUNT {
        return Err(CursorError::OversizedXcursorFile);
    }
    if (header as u64) + 12u64 * (ntoc as u64) > dlen as u64 {
        return Err(CursorError::Io);
    }
    let toc_base: usize = header as usize;
    let entries = parse_toc(data, toc_base, ntoc);
    let n = scales.len();
    let m = sizes.len();
    proof {
        assert(tgts.len() == n * m);
        if n > 0 && m > 0 {
            assert(n * m > 0) by (nonlinear_arith)
                requires
                    n > 0,
                    m > 0,
            ;
        }
    }
    if n == 0 || m == 0 || entries.len() == 0 {
        return Err(CursorError::EmptyXcursorFile);
    }
    // Scan: per target, the best-fitting size and the positions serving it.
    let mut targets: Vec<Target> = Vec::new();
    let mut i: usize = 0;
    while i < n
        invariant
            i <= n,
            n == scales@.len(),
            m == sizes@.len(),
            m > 0,
            entries@ == image_entries(d),
            entries@.len() > 0,
            d == data@,
            tgts == spec_targets(scales@, sizes@),
            forall|q: int| 0 <= q < scales@.len() ==> (#[trigger] scales@[q]).wf(),
            targets@.len() == i * m,
            forall|k: int|
                0 <= k < targets@.len() ==> target_matches(#[trigger] targets@[k], tgts[k], d),
        decreases n - i,
    {
        let mut j: usize = 0;
        proof {
            assert(i * m + m == (i + 1) * m) by (nonlinear_arith);
            assert((i + 1) * m <= n * m) by (nonlinear_arith)
                requires
                    i + 1 <= n,
                    m >= 0,
            ;
        }
        while j < m
            invariant
                j <= m,
                i < n,
                n == scales@.len(),
                m == sizes@.len(),
                entries@ == image_entries(d),
                entries@.len() > 0,
                d == data@,
                tgts == spec_targets(scales@, sizes@),
                forall|q: int| 0 <= q < scales@.len() ==> (#[trigger] scales@[q]).wf(),
                targets@.len() == i * m + j,
                i * m + m <= n * m,
                forall|k: int|
                    0 <= k < targets@.len() ==> target_matches(#[trigger] targets@[k], tgts[k], d),
            decreases m - j,
        {
            let scale = scales[i];
            let size = sizes[j];
            let eff = scale.effective_size(size);
            let best = find_best(&entries, eff);
            let positions = positions_for(&entries, best);
            proof {
                let k = i * m + j;
                vstd::arithmetic::div_mod::lemma_fundamental_div_mod_converse(
                    k as int,
                    m as int,
                    i as int,
                    j as int,
                );
                assert(tgts[k as int] == ScaleSize { scale: scales@[i as int], size: sizes@[j as int] });
            }
            targets.push(Target { positions, effective_size: eff, size, scale });
            j = j + 1;
        }
        i = i + 1;
    }
    proof {
        assert(targets@.len() == n * m);
        assert(targets@.len() == tgts.len());
        assert(tgts.len() > 0);
        assert forall|a: int|
            0 <= a < targets@.len() implies (#[trigger] targets@[a]).positions@.len() > 0 by {
            lemma_target_positions_nonempty(entries@, targets@[a].effective_size);
        }
    }
    // The union of all selected positions, each exactly once, first seen first.
    let mut uniq: Vec<u32> = Vec::new();
    let mut k: usize = 0;
    while k < targets.len()
        invariant
            k <= targets@.len(),
            targets@.len() == tgts.len(),
            d == data@,
            forall|q: int|
                0 <= q < targets@.len() ==> target_matches(#[trigger] targets@[q], tgts[q], d),
            uniq@.no_duplicates(),
            uniq_from_targets(uniq@, targets@),
            forall|q: int, f: int|
                0 <= q < k && 0 <= f < targets@[q].positions@.len() ==> uniq@.contains(
                    #[trigger] targets@[q].positions@[f],
                ),
        decreases targets@.len() - k,
    {
        let mut f: usize = 0;
        while f < targets[k].positions.len()
            invariant
                k < targets@.len(),
                f <= targets@[k as int].positions@.len(),
                targets@.len() == tgts.len(),
                d == data@,
                forall|q: int|
                    0 <= q < targets@.len() ==> target_matches(#[trigger] targets@[q], tgts[q], d),
                uniq@.no_duplicates(),
                uniq_from_targets(uniq@, targets@),
                forall|q: int, ff: int|
                    0 <= q < k && 0 <= ff < targets@[q].positions@.len() ==> uniq@.contains(
                        #[trigger] targets@[q].positions@[ff],
                    ),
                forall|ff: int|
                    0 <= ff < f ==> uniq@.contains(
                        #[trigger] targets@[k as int].positions@[ff],
                    ),
            decreases targets@[k as int].positions@.len() - f,
        {
            let p = targets[k].positions[f];
            let ghost u0 = uniq@;
            if !contains_u32(&uniq, p) {
                proof {
                    assert(targets@[k as int].positions@.contains(targets@[k as int].positions@[f as int]));
                }
                uniq.push(p);
                proof {
                    lemma_push_keeps_contents(u0, p);
                    assert forall|a: int|
                        0 <= a < uniq@.len() implies from_some_target(
                        targets@,
                        #[trigger] uniq@[a],
                    ) by {
                        if a < u0.len() {
                            assert(uniq@[a] == u0[a]);
                            assert(from_some_target(targets@, u0[a]));
                        } else {
                            assert(uniq@[a] == p);
                            assert(targets@[k as int].positions@.contains(p));
                        }
                    }
                }
            } else {
                proof {
                    assert(uniq@.contains(targets@[k as int].positions@[f as int]));
                }
            }
            f = f + 1;
        }
        k = k + 1;
    }
    // Read every selected chunk exactly once.
    let mut images: Vec<(u32, XCursorImage)> = Vec::new();
    let mut idx: usize = 0;
    while idx < uniq.len()
        invariant
            idx <= uniq@.len(),
            d == data@,
            dlen == d.len(),
            targets@.len() == tgts.len(),
            tgts == spec_targets(scales@, sizes@),
            phase_ok(d, tgts),
            forall|q: int|
                0 <= q < targets@.len() ==> target_matches(#[trigger] targets@[q], tgts[q], d),
            uniq_from_targets(uniq@, targets@),
            forall|q: int, f: int|
                0 <= q < targets@.len() && 0 <= f < targets@[q].positions@.len()
                    ==> uniq@.contains(#[trigger] targets@[q].positions@[f]),
            images@.len() == idx,
            forall|a: int|
                0 <= a < idx ==> (#[trigger] images@[a]).0 == uniq@[a] && chunk_wf(d, uniq@[a])
                    && image_matches(d, uniq@[a], images@[a].1),
        decreases uniq@.len() - idx,
    {
        let pos = uniq[idx];
        proof {
            assert(from_some_target(targets@, uniq@[idx as int]));
        }
        let ghost wa: int = choose|q: int|
            0 <= q < targets@.len() && (#[trigger] targets@[q]).positions@.contains(
                uniq@[idx as int],
            );
        let ghost wf2: int = choose|ff: int|
            0 <= ff < targets@[wa].positions@.len() && targets@[wa].positions@[ff] == uniq@[idx as int];
        proof {
            assert(target_matches(targets@[wa], tgts[wa], d));
            assert(tpos(d, tgts[wa])[wf2] == pos);
            assert(0 <= wf2 < tpos(d, tgts[wa]).len());
        }
        let img = match read_chunk(data, pos) {
            Ok(img) => img,
            Err(e) => {
                proof {
                    assert(!chunk_wf(d, tpos(d, tgts[wa])[wf2]));
                    assert(!file_wf(d, tgts));
                    if e == CursorError::CorruptXcursorFile {
                        assert(corrupt_plausible(d, tgts));
                    } else {
                        assert(io_plausible(d, tgts));
                    }
                }
                return Err(e);
            },
        };
        images.push((pos, img));
        idx = idx + 1;
    }
    // The animation length: the first target's frame count; a mismatch across
    // targets degrades the result to a single frame.
    let num0 = targets[0].positions.len();
    let mut mismatch = false;
    let mut q: usize = 0;
    while q < targets.len()
        invariant
            q <= targets@.len(),
            mismatch == exists|a: int|
                0 <= a < q && (#[trigger] targets@[a]).positions@.len()
                    != targets@[0].positions@.len(),
            num0 == targets@[0].positions@.len(),
        decreases targets@.len() - q,
    {
        if targets[q].positions.len() != num0 {
            mismatch = true;
        }
        q = q + 1;
    }
    let degraded = num0 > 1 && mismatch;
    let num = if degraded {
        1
    } else {
        num0
    };
    // Assemble: per frame, one image per target.
    let mut frames: Vec<Vec<(ScaleSize, XCursorImage)>> = Vec::new();
    let mut f: usize = 0;
    while f < num
        invariant
            f <= num,
            d == data@,
            targets@.len() == tgts.len(),
            tgts == spec_targets(scales@, sizes@),
            phase_ok(d, tgts),
            num0 == targets@[0].positions@.len(),
            mismatch == exists|a: int|
                0 <= a < targets@.len() && (#[trigger] targets@[a]).positions@.len() != num0,
            degraded == (num0 > 1 && mismatch),
            num == if degraded { 1int } else { num0 as int },
            forall|a: int|
                0 <= a < targets@.len() ==> (#[trigger] targets@[a]).positions@.len() > 0,
            forall|qq: int|
                0 <= qq < targets@.len() ==> target_matches(#[trigger] targets@[qq], tgts[qq], d),
            forall|qq: int, ff: int|
                0 <= qq < targets@.len() && 0 <= ff < targets@[qq].positions@.len()
                    ==> uniq@.contains(#[trigger] targets@[qq].positions@[ff]),
            images@.len() == uniq@.len(),
            forall|a: int|
                0 <= a < images@.len() ==> (#[trigger] images@[a]).0 == uniq@[a] && chunk_wf(
                    d,
                    uniq@[a],
                ) && image_matches(d, uniq@[a], images@[a].1),
            frames@.len() == f,
            forall|ff: int|
                0 <= ff < f ==> (#[trigger] frames@[ff])@.len() == tgts.len(),
            forall|ff: int, kk: int|
                0 <= ff < f && 0 <= kk < tgts.len() ==> {
                    &&& (#[trigger] frames@[ff]@[kk]).0 == tgts[kk]
                    &&& image_matches(d, tpos(d, tgts[kk])[ff], frames@[ff]@[kk].1)
                },
        decreases num - f,
    {
        let mut row: Vec<(ScaleSize, XCursorImage)> = Vec::new();
        let mut kk: usize = 0;
        while kk < targets.len()
            invariant
                kk <= targets@.len(),
                f < num,
                d == data@,
                targets@.len() == tgts.len(),
                num0 == targets@[0].positions@.len(),
                mismatch == exists|a: int|
                    0 <= a < targets@.len() && (#[trigger] targets@[a]).positions@.len() != num0,
                degraded == (num0 > 1 && mismatch),
                num == if degraded { 1int } else { num0 as int },
                forall|a: int|
                    0 <= a < targets@.len() ==> (#[trigger] targets@[a]).positions@.len() > 0,
                forall|qq: int|
                    0 <= qq < targets@.len() ==> target_matches(
                        #[trigger] targets@[qq],
                        tgts[qq],
                        d,
                    ),
                forall|qq: int, ff: int|
                    0 <= qq < targets@.len() && 0 <= ff < targets@[qq].positions@.len()
                        ==> uniq@.contains(#[trigger] targets@[qq].positions@[ff]),
                images@.len() == uniq@.len(),
                forall|a: int|
                    0 <= a < images@.len() ==> (#[trigger] images@[a]).0 == uniq@[a] && chunk_wf(
                        d,
                        uniq@[a],
                    ) && image_matches(d, uniq@[a], images@[a].1),
                row@.len() == kk,
                forall|k2: int|
                    0 <= k2 < kk ==> {
                        &&& (#[trigger] row@[k2]).0 == tgts[k2]
                        &&& image_matches(d, tpos(d, tgts[k2])[f as int], row@[k2].1)
                    },
            decreases targets@.len() - kk,
        {
            proof {
                if degraded {
                    assert(f == 0);
                } else {
                    if num0 > 1 {
                        assert(!mismatch);
                        assert(targets@[kk as int].positions@.len() == num0);
                    } else {
                        assert(f == 0);
                    }
                }
                assert(f < targets@[kk as int].positions@.len());
            }
            let pos = targets[kk].positions[f];
            proof {
                assert(uniq@.contains(pos));
                let a = choose|a: int| 0 <= a < uniq@.len() && uniq@[a] == pos;
                assert(images@[a].0 == pos);
            }
            let img = lookup_image(&images, pos);
            let cloned = img.clone();
            row.push((ScaleSize { scale: targets[kk].scale, size: targets[kk].size }, cloned));
            kk = kk + 1;
        }
        frames.push(row);
        f = f + 1;
    }
    proof {
        assert(file_wf(d, tgts)) by {
            assert(forall|k2: int, f2: int|
                0 <= k2 < tgts.len() && 0 <= f2 < tpos(d, tgts[k2]).len() ==> chunk_wf(
                    d,
                    #[trigger] tpos(d, tgts[k2])[f2],
                )) by {
                assert forall|k2: int, f2: int|
                    0 <= k2 < tgts.len() && 0 <= f2 < tpos(d, tgts[k2]).len() implies chunk_wf(
                    d,
                    #[trigger] tpos(d, tgts[k2])[f2],
                ) by {
                    let p2 = tpos(d, tgts[k2])[f2];
                    assert(targets@[k2].positions@[f2] == p2);
                    assert(uniq@.contains(p2));
                    let a = choose|a: int| 0 <= a < uniq@.len() && uniq@[a] == p2;
                    assert(images@[a].0 == uniq@[a]);
                    assert(chunk_wf(d, uniq@[a]));
                }
            }
        }
        assert(targets@[0].positions@ == tpos(d, tgts[0]));
        if mismatch {
            let a = choose|a: int|
                0 <= a < targets@.len() && (#[trigger] targets@[a]).positions@.len() != num0;
            assert(tpos(d, tgts[a]).len() != tpos(d, tgts[0]).len());
        }
        if frames_degraded(d, tgts) {
            let a = choose|k2: int|
                0 <= k2 < tgts.len() && tpos(d, #[trigger] tgts[k2]).len() != tpos(
                    d,
                    tgts[0],
                ).len();
            assert(targets@[a].positions@.len() != num0);
            assert(mismatch);
        }
        assert(frames_degraded(d, tgts) == degraded);
        assert(frames@.len() == spec_frame_count(d, tgts));
    }
    Ok(OpenCursorResult { images: frames, degraded })
}

/// Law: decoding a well-formed file for a list of distinct targets yields, in
/// every animation frame, exactly one image per requested target — the entry
/// at the target's position in the frame map, and no other entry keyed by
/// that target.
pub proof fn lemma_one_image_per_target(d: Seq<u8>, tgts: Seq<ScaleSize>, res: OpenCursorResult)
    requires
        decode_ok(d, tgts, res),
        tgts.no_duplicates(),
    ensures
        forall|f: int, k: int|
            0 <= f < res.images@.len() && 0 <= k < tgts.len() ==> {
                &&& (#[trigger] res.images@[f]@[k]).0 == tgts[k]
                &&& forall|k2: int|
                    0 <= k2 < res.images@[f]@.len() && (#[trigger] res.images@[f]@[k2]).0
                        == tgts[k] ==> k2 == k
            },
{
    assert forall|f: int, k: int|
        0 <= f < res.images@.len() && 0 <= k < tgts.len() implies {
        &&& (#[trigger] res.images@[f]@[k]).0 == tgts[k]
        &&& forall|k2: int|
            0 <= k2 < res.images@[f]@.len() && (#[trigger] res.images@[f]@[k2]).0 == tgts[k]
                ==> k2 == k
    } by {
        assert(res.images@[f]@[k].0 == tgts[k]);
        assert forall|k2: int|
            0 <= k2 < res.images@[f]@.len() && (#[trigger] res.images@[f]@[k2]).0 == tgts[k]
                implies k2 == k by {
            assert(res.images@[f]@[k2].0 == tgts[k2]);
            assert(tgts[k2] == tgts[k]);
        }
    }
}

} // verus!
