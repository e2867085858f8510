//! Cursor templates and instances: per-kind image sets decoded from cursor
//! theme files, uploaded to the GPU, and instantiated per display size.

use vstd::prelude::*;

use crate::rect::Rect;
use crate::scale::Fixed;
use crate::scale::Scale;
use crate::xcursor::OpenCursorResult;
use crate::xcursor::XCursorImage;

verus! {

/// Failures while loading or decoding a cursor.
#[derive(Copy, Clone, Debug, PartialEq, Eq, Structural)]
pub enum CursorError {
    /// An underlying read or open failure.
    Io,
    /// The file is not an Xcursor file.
    NotAnXcursorFile,
    /// The Xcursor file contains more than 0x10000 images.
    OversizedXcursorFile,
    /// The Xcursor file is empty.
    EmptyXcursorFile,
    /// The Xcursor file is corrupt.
    CorruptXcursorFile,
    /// The requested cursor could not be found.
    NotFound,
    /// Could not import the cursor as a texture.
    ImportError,
}

impl CursorError {
    /// A human-readable description of the error.
    pub fn message(&self) -> (r: &'static str)
        ensures
            r@.len() > 0,
    {
        let s: &'static str = match self {
            CursorError::Io => "an io error occurred",
            CursorError::NotAnXcursorFile => "the file is not an xcursor file",
            CursorError::OversizedXcursorFile => "the xcursor file contains more than 0x10000 images",
            CursorError::EmptyXcursorFile => "the xcursor file is empty",
            CursorError::CorruptXcursorFile => "the xcursor file is corrupt",
            CursorError::NotFound => "the requested cursor could not be found",
            CursorError::ImportError => "could not import the cursor as a texture",
        };
        proof {
            reveal_strlit("an io error occurred");
            reveal_strlit("the file is not an xcursor file");
            reveal_strlit("the xcursor file contains more than 0x10000 images");
            reveal_strlit("the xcursor file is empty");
            reveal_strlit("the xcursor file is corrupt");
            reveal_strlit("the requested cursor could not be found");
            reveal_strlit("could not import the cursor as a texture");
        }
        s
    }
}

/// The well-known cursor kinds the compositor loads at theme-load time.
#[derive(Copy, Clone, Debug, Eq, PartialEq, Structural)]
pub enum KnownCursor {
    Default,
    ContextMenu,
    Help,
    Pointer,
    Progress,
    Wait,
    Cell,
    Crosshair,
    Text,
    VerticalText,
    Alias,
    Copy,
    Move,
    NoDrop,
    NotAllowed,
    Grab,
    Grabbing,
    EResize,
    NResize,
    NeResize,
    NwResize,
    SResize,
    SeResize,
    SwResize,
    WResize,
    EwResize,
    NsResize,
    NeswResize,
    NwseResize,
    ColResize,
    RowResize,
    AllScroll,
    ZoomIn,
    ZoomOut,
    DndAsk,
    AllResize,
}

/// The number of well-known cursor kinds.
pub const KNOWN_CURSOR_COUNT: u32 = 36;

impl KnownCursor {
    /// The position of this kind in declaration order.
    pub open spec fn spec_index(self) -> int {
        match self {
            KnownCursor::Default => 0,
            KnownCursor::ContextMenu => 1,
            KnownCursor::Help => 2,
            KnownCursor::Pointer => 3,
            KnownCursor::Progress => 4,
            KnownCursor::Wait => 5,
            KnownCursor::Cell => 6,
            KnownCursor::Crosshair => 7,
            KnownCursor::Text => 8,
            KnownCursor::VerticalText => 9,
            KnownCursor::Alias => 10,
            KnownCursor::Copy => 11,
            KnownCursor::Move => 12,
            KnownCursor::NoDrop => 13,
            KnownCursor::NotAllowed => 14,
            KnownCursor::Grab => 15,
            KnownCursor::Grabbing => 16,
            KnownCursor::EResize => 17,
            KnownCursor::NResize => 18,
            KnownCursor::NeResize => 19,
            KnownCursor::NwResize => 20,
            KnownCursor::SResize => 21,
            KnownCursor::SeResize => 22,
            KnownCursor::SwResize => 23,
            KnownCursor::WResize => 24,
            KnownCursor::EwResize => 25,
            KnownCursor::NsResize => 26,
            KnownCursor::NeswResize => 27,
            KnownCursor::NwseResize => 28,
            KnownCursor::ColResize => 29,
            KnownCursor::RowResize => 30,
            KnownCursor::AllScroll => 31,
            KnownCursor::ZoomIn => 32,
            KnownCursor::ZoomOut => 33,
            KnownCursor::DndAsk => 34,
            KnownCursor::AllResize => 35,
        }
    }

    /// The position of this kind in declaration order.
    pub fn index(self) -> (r: usize)
        ensures
            r == self.spec_index(),
            r < KNOWN_CURSOR_COUNT,
    {
        match self {
            KnownCursor::Default => 0,
            KnownCursor::ContextMenu => 1,
            KnownCursor::Help => 2,
            KnownCursor::Pointer => 3,
            KnownCursor::Progress => 4,
            KnownCursor::Wait => 5,
            KnownCursor::Cell => 6,
            KnownCursor::Crosshair => 7,
            KnownCursor::Text => 8,
            KnownCursor::VerticalText => 9,
            KnownCursor::Alias => 10,
            KnownCursor::Copy => 11,
            KnownCursor::Move => 12,
            KnownCursor::NoDrop => 13,
            KnownCursor::NotAllowed => 14,
            KnownCursor::Grab => 15,
            KnownCursor::Grabbing => 16,
            KnownCursor::EResize => 17,
            KnownCursor::NResize => 18,
            KnownCursor::NeResize => 19,
            KnownCursor::NwResize => 20,
            KnownCursor::SResize => 21,
            KnownCursor::SeResize => 22,
            KnownCursor::SwResize => 23,
            KnownCursor::WResize => 24,
            KnownCursor::EwResize => 25,
            KnownCursor::NsResize => 26,
            KnownCursor::NeswResize => 27,
            KnownCursor::NwseResize => 28,
            KnownCursor::ColResize => 29,
            KnownCursor::RowResize => 30,
            KnownCursor::AllScroll => 31,
            KnownCursor::ZoomIn => 32,
            KnownCursor::ZoomOut => 33,
            KnownCursor::DndAsk => 34,
            KnownCursor::AllResize => 35,
        }
    }

    /// The cursor kind at a position in declaration order, or `None` when the
    /// position is out of range.
    pub fn from_u32(n: u32) -> (r: Option<KnownCursor>)
        ensures
            match r {
                Some(kind) => kind.spec_index() == n,
                None => n >= KNOWN_CURSOR_COUNT,
            },
    {
        match n {
            0 => Some(KnownCursor::Default),
            1 => Some(KnownCursor::ContextMenu),
            2 => Some(KnownCursor::Help),
            3 => Some(KnownCursor::Pointer),
            4 => Some(KnownCursor::Progress),
            5 => Some(KnownCursor::Wait),
            6 => Some(KnownCursor::Cell),
            7 => Some(KnownCursor::Crosshair),
            8 => Some(KnownCursor::Text),
            9 => Some(KnownCursor::VerticalText),
            10 => Some(KnownCursor::Alias),
            11 => Some(KnownCursor::Copy),
            12 => Some(KnownCursor::Move),
            13 => Some(KnownCursor::NoDrop),
            14 => Some(KnownCursor::NotAllowed),
            15 => Some(KnownCursor::Grab),
            16 => Some(KnownCursor::Grabbing),
            17 => Some(KnownCursor::EResize),
            18 => Some(KnownCursor::NResize),
            19 => Some(KnownCursor::NeResize),
            20 => Some(KnownCursor::NwResize),
            21 => Some(KnownCursor::SResize),
            22 => Some(KnownCursor::SeResize),
            23 => Some(KnownCursor::SwResize),
            24 => Some(KnownCursor::WResize),
            25 => Some(KnownCursor::EwResize),
            26 => Some(KnownCursor::NsResize),
            27 => Some(KnownCursor::NeswResize),
            28 => Some(KnownCursor::NwseResize),
            29 => Some(KnownCursor::ColResize),
            30 => Some(KnownCursor::RowResize),
            31 => Some(KnownCursor::AllScroll),
            32 => Some(KnownCursor::ZoomIn),
            33 => Some(KnownCursor::ZoomOut),
            34 => Some(KnownCursor::DndAsk),
            35 => Some(KnownCursor::AllResize),
            _ => None,
        }
    }
}

/// An opaque handle to a texture the renderer uploaded; the renderer owns the
/// pixel data behind it, and the handle is freely shared because uploaded
/// images never change.
#[derive(Copy, Clone, Debug, PartialEq, Eq, Structural)]
pub struct TextureId {
    pub id: u64,
}

/// A requested combination of display scale and logical cursor size.
#[derive(Copy, Clone, Debug, PartialEq, Eq, Structural)]
pub struct ScaleSize {
    pub scale: Scale,
    pub size: u32,
}

/// A draw of a texture on the render plane: the position of its top-left
/// corner and the scale it was prepared for.
#[derive(Copy, Clone, Debug, PartialEq, Eq, Structural)]
pub struct DrawCall {
    pub tex: TextureId,
    pub x: i64,
    pub y: i64,
    pub scale: Scale,
}

/// The render pass a cursor draws into: the caller's current display scale,
/// the visible pixel area, and the draws recorded so far, which the render
/// loop hands to the GPU.
pub struct Renderer {
    pub scale: Scale,
    pub pixel_extents: Rect,
    pub draws: Vec<DrawCall>,
}

/// One uploaded image of a cursor at one (scale, size): its hotspot-relative
/// extents and the texture handle.
#[derive(Copy, Clone, Debug, PartialEq, Eq, Structural)]
pub struct CursorImageScaled {
    pub extents: Rect,
    pub tex: TextureId,
}

impl CursorImageScaled {
    /// Builds the render-facing image for an uploaded texture: the extents
    /// rectangle has its origin at `(-xhot, -yhot)` and the image's size.
    pub fn from_bytes(tex: TextureId, width: i32, height: i32, xhot: i32, yhot: i32) -> (r:
        CursorImageScaled)
        requires
            0 <= width,
            0 <= height,
            0 <= xhot,
            0 <= yhot,
        ensures
            r.tex == tex,
            r.extents.x1 == -xhot,
            r.extents.y1 == -yhot,
            r.extents.x2 == width - xhot,
            r.extents.y2 == height - yhot,
            r.extents.wf(),
    {
        let extents = match Rect::new_sized(-xhot, -yhot, width, height) {
            Some(e) => e,
            None => {
                proof {
                    assert(false);
                }
                vstd::pervasive::unreached()
            },
        };
        CursorImageScaled { extents, tex }
    }
}

/// The per-frame delay in nanoseconds: the declared delay in milliseconds,
/// clamped up to one millisecond so animations always advance.
pub open spec fn spec_delay_ns(delay_ms: u64) -> int {
    if delay_ms >= 1 {
        delay_ms * 1_000_000
    } else {
        1_000_000
    }
}

/// One animation frame of a cursor template: its delay and one uploaded image
/// per requested (scale, size).
pub struct CursorImage {
    pub delay_ns: u64,
    pub sizes: Vec<(ScaleSize, CursorImageScaled)>,
}

/// The entries of one logical size, projected down to their scales.
pub open spec fn spec_for_size(s: Seq<(ScaleSize, CursorImageScaled)>, size: u32) -> Seq<
    (Scale, CursorImageScaled),
> {
    s.filter(|p: (ScaleSize, CursorImageScaled)| p.0.size == size).map_values(
        |p: (ScaleSize, CursorImageScaled)| (p.0.scale, p.1),
    )
}

proof fn lemma_for_size_push(s: Seq<(ScaleSize, CursorImageScaled)>, size: u32, x: (ScaleSize, CursorImageScaled))
    ensures
        x.0.size == size ==> spec_for_size(s.push(x), size) == spec_for_size(s, size).push(
            (x.0.scale, x.1),
        ),
        x.0.size != size ==> spec_for_size(s.push(x), size) == spec_for_size(s, size),
{
    reveal(Seq::filter);
    let pred = |p: (ScaleSize, CursorImageScaled)| p.0.size == size;
    assert(s.push(x).drop_last() =~= s);
    assert(s.push(x).last() == x);
    if x.0.size == size {
        assert(s.push(x).filter(pred) =~= s.filter(pred).push(x));
        assert(spec_for_size(s.push(x), size) =~= spec_for_size(s, size).push((x.0.scale, x.1)));
    } else {
        assert(s.push(x).filter(pred) =~= s.filter(pred));
    }
}

impl CursorImage {
    /// Builds a frame from its declared delay in milliseconds and its images.
    pub fn from_sizes(delay_ms: u64, sizes: Vec<(ScaleSize, CursorImageScaled)>) -> (r:
        CursorImage)
        requires
            delay_ms <= u32::MAX,
        ensures
            r.delay_ns == spec_delay_ns(delay_ms),
            r.sizes == sizes,
    {
        let clamped = if delay_ms >= 1 {
            delay_ms
        } else {
            1
        };
        CursorImage { delay_ns: clamped * 1_000_000, sizes }
    }

    /// Projects the frame down to the entries of one logical size.
    pub fn for_size(&self, size: u32) -> (r: InstantiatedCursorImage)
        ensures
            r.delay_ns == self.delay_ns,
            r.scales@ == spec_for_size(self.sizes@, size),
    {
        let mut scales: Vec<(Scale, CursorImageScaled)> = Vec::new();
        let mut i: usize = 0;
        while i < self.sizes.len()
            invariant
                i <= self.sizes@.len(),
                scales@ == spec_for_size(self.sizes@.take(i as int), size),
            decreases self.sizes@.len() - i,
        {
            proof {
                assert(self.sizes@.take(i + 1).drop_last() =~= self.sizes@.take(i as int));
                assert(self.sizes@.take(i + 1) =~= self.sizes@.take(i as int).push(
                    self.sizes@[i as int],
                ));
                lemma_for_size_push(self.sizes@.take(i as int), size, self.sizes@[i as int]);
            }
            if self.sizes[i].0.size == size {
                scales.push((self.sizes[i].0.scale, self.sizes[i].1));
            }
            i = i + 1;
        }
        proof {
            assert(self.sizes@.take(self.sizes@.len() as int) =~= self.sizes@);
        }
        InstantiatedCursorImage { delay_ns: self.delay_ns, scales }
    }
}

/// A frame bound to one logical size: its delay and one image per scale.
pub struct InstantiatedCursorImage {
    pub delay_ns: u64,
    pub scales: Vec<(Scale, CursorImageScaled)>,
}

/// The first image recorded for a scale, if any.
pub open spec fn scale_lookup(s: Seq<(Scale, CursorImageScaled)>, scale: Scale) -> Option<
    CursorImageScaled,
>
    decreases s.len(),
{
    if s.len() == 0 {
        None
    } else if s[0].0 == scale {
        Some(s[0].1)
    } else {
        scale_lookup(s.drop_first(), scale)
    }
}

proof fn lemma_scale_lookup_skip(s: Seq<(Scale, CursorImageScaled)>, scale: Scale, i: int)
    requires
        0 <= i <= s.len(),
        forall|j: int| 0 <= j < i ==> (#[trigger] s[j]).0 != scale,
    ensures
        scale_lookup(s, scale) == scale_lookup(s.skip(i), scale),
    decreases i,
{
    if i > 0 {
        assert(s.len() > 0);
        assert(s[0].0 != scale);
        lemma_scale_lookup_skip(s.drop_first(), scale, i - 1);
        assert(s.drop_first().skip(i - 1) =~= s.skip(i));
    } else {
        assert(s.skip(0) =~= s);
    }
}

/// Finds the image recorded for a scale.
fn find_scale(s: &Vec<(Scale, CursorImageScaled)>, scale: Scale) -> (r: Option<CursorImageScaled>)
    ensures
        r == scale_lookup(s@, scale),
{
    let mut i: usize = 0;
    while i < s.len()
        invariant
            i <= s@.len(),
            forall|j: int| 0 <= j < i ==> (#[trigger] s@[j]).0 != scale,
        decreases s@.len() - i,
    {
        if s[i].0.base_120 == scale.base_120 {
            proof {
                assert(s@[i as int].0 == scale);
                lemma_scale_lookup_skip(s@, scale, i as int);
                assert(s@.skip(i as int)[0] == s@[i as int]);
            }
            return Some(s[i].1);
        }
        i = i + 1;
    }
    proof {
        lemma_scale_lookup_skip(s@, scale, s@.len() as int);
        assert(s@.skip(s@.len() as int) =~= Seq::<(Scale, CursorImageScaled)>::empty());
    }
    None
}

/// The position on the render plane at which a cursor anchored at the
/// hotspot-relative coordinates `(x, y)` is drawn under a scale: at identity
/// scale the coordinates are rounded down, otherwise they are scaled and
/// rounded to the nearest pixel.
pub open spec fn spec_render_pos(x: Fixed, y: Fixed, scale: Scale) -> (int, int) {
    if scale.base_120 != 120 {
        (
            crate::scale::saturate_i32(x.spec_scaled_round(scale)) as int,
            crate::scale::saturate_i32(y.spec_scaled_round(scale)) as int,
        )
    } else {
        (x.raw as int / 256, y.raw as int / 256)
    }
}

/// Whether an image with the given extents, moved to the draw position,
/// overlaps the visible pixel area.
pub open spec fn spec_draw_hits(extents: Rect, dx: int, dy: int, pixel_extents: Rect) -> bool {
    &&& extents.x1 + dx < pixel_extents.x2
    &&& pixel_extents.x1 < extents.x2 + dx
    &&& extents.y1 + dy < pixel_extents.y2
    &&& pixel_extents.y1 < extents.y2 + dy
}

/// What one render step does to the render pass: when the frame has an image
/// for the pass's scale and the moved extents overlap the visible area, one
/// draw of that image is recorded; otherwise the pass is unchanged.
pub open spec fn spec_render_img(img: InstantiatedCursorImage, r0: Renderer, r1: Renderer, x: Fixed, y: Fixed) -> bool {
    match scale_lookup(img.scales@, r0.scale) {
        None => r1 == r0,
        Some(image) => {
            let pos = spec_render_pos(x, y, r0.scale);
            if spec_draw_hits(image.extents, pos.0, pos.1, r0.pixel_extents) {
                &&& r1.scale == r0.scale
                &&& r1.pixel_extents == r0.pixel_extents
                &&& r1.draws@ == r0.draws@.push(
                    DrawCall {
                        tex: image.tex,
                        x: (image.extents.x1 + pos.0) as i64,
                        y: (image.extents.y1 + pos.1) as i64,
                        scale: r0.scale,
                    },
                )
            } else {
                r1 == r0
            }
        },
    }
}

/// Draws one frame of a cursor at a hotspot-relative position, skipping the
/// draw when the pass's scale has no image or the image lies outside the
/// visible area.
pub fn render_img(image: &InstantiatedCursorImage, renderer: &mut Renderer, x: Fixed, y: Fixed)
    requires
        old(renderer).scale.wf(),
    ensures
        spec_render_img(*image, *old(renderer), *final(renderer), x, y),
{
    let img = match find_scale(&image.scales, renderer.scale) {
        Some(img) => img,
        None => {
            return ;
        },
    };
    let (dx, dy): (i64, i64) = if !renderer.scale.is_one() {
        (x.scaled_round(renderer.scale) as i64, y.scaled_round(renderer.scale) as i64)
    } else {
        (x.round_down() as i64, y.round_down() as i64)
    };
    let x1 = img.extents.x1() as i64 + dx;
    let y1 = img.extents.y1() as i64 + dy;
    let x2 = img.extents.x2() as i64 + dx;
    let y2 = img.extents.y2() as i64 + dy;
    let pe = renderer.pixel_extents;
    if x1 < pe.x2() as i64 && (pe.x1() as i64) < x2 && y1 < pe.y2() as i64 && (pe.y1() as i64)
        < y2 {
        let call = DrawCall { tex: img.tex, x: x1, y: y1, scale: renderer.scale };
        renderer.draws.push(call);
    }
}

/// What a hardware-cursor render does to the render pass: when the frame has
/// an image for the pass's scale, one draw of it at the origin is recorded;
/// otherwise the pass is unchanged.
pub open spec fn spec_render_hw(img: InstantiatedCursorImage, r0: Renderer, r1: Renderer) -> bool {
    match scale_lookup(img.scales@, r0.scale) {
        None => r1 == r0,
        Some(image) => {
            &&& r1.scale == r0.scale
            &&& r1.pixel_extents == r0.pixel_extents
            &&& r1.draws@ == r0.draws@.push(
                DrawCall { tex: image.tex, x: 0, y: 0, scale: r0.scale },
            )
        },
    }
}

/// The hotspot-relative extents a frame reports for a scale: its image's
/// extents, or an empty rectangle when the scale has no image.
pub open spec fn spec_extents_at_scale(img: InstantiatedCursorImage, scale: Scale) -> Rect {
    match scale_lookup(img.scales@, scale) {
        None => Rect { x1: 0, y1: 0, x2: 0, y2: 0 },
        Some(image) => image.extents,
    }
}

/// Draws one frame at the origin for the dedicated hardware cursor plane.
fn render_img_hw(image: &InstantiatedCursorImage, renderer: &mut Renderer)
    ensures
        spec_render_hw(*image, *old(renderer), *final(renderer)),
{
    if let Some(img) = find_scale(&image.scales, renderer.scale) {
        let call = DrawCall { tex: img.tex, x: 0, y: 0, scale: renderer.scale };
        renderer.draws.push(call);
    }
}

/// The extents one frame reports for a scale.
fn extents_of_img(image: &InstantiatedCursorImage, scale: Scale) -> (r: Rect)
    ensures
        r == spec_extents_at_scale(*image, scale),
{
    match find_scale(&image.scales, scale) {
        None => Rect::new_empty(0, 0),
        Some(img) => img.extents,
    }
}

/// A render-facing cursor object.
///
/// The render loop draws through `render` and `render_hardware_cursor`, asks
/// `extents_at_scale` for damage tracking, and drives animated cursors with
/// `tick` and `time_until_tick` against its monotonic clock, handed in as
/// nanoseconds since the engine started. Only animated cursors report
/// `needs_tick`, letting the scheduler skip idle work for static ones.
pub trait Cursor {
    /// Draws the current frame at a hotspot-relative position.
    fn render(&self, renderer: &mut Renderer, x: Fixed, y: Fixed)
        requires
            old(renderer).scale.wf(),
            self.cursor_wf(),
    ;

    /// Draws the current frame at the origin of the hardware cursor plane.
    fn render_hardware_cursor(&self, renderer: &mut Renderer)
        requires
            self.cursor_wf(),
    ;

    /// The current frame's hotspot-relative extents for a scale.
    fn extents_at_scale(&self, scale: Scale) -> Rect
        requires
            self.cursor_wf(),
    ;

    /// Validity of the cursor's internal state.
    spec fn cursor_wf(&self) -> bool;

    /// The cursor became the active pointer image.
    fn handle_set(&self) {
    }

    /// The cursor stopped being the active pointer image.
    fn handle_unset(&self) {
    }

    /// Advances the animation if a frame is due at `now_ns`.
    fn tick(&mut self, now_ns: u64)
        requires
            old(self).cursor_wf(),
        ensures
            final (self).cursor_wf(),
    {
    }

    /// Whether the render loop must schedule `tick` calls for this cursor.
    fn needs_tick(&self) -> bool {
        false
    }

    /// The nanoseconds left until the next `tick` advances a frame.
    fn time_until_tick(&self, now_ns: u64) -> u64 {
        0
    }

    /// The cursor's visibility changed.
    fn set_visible(&self, visible: bool) {
    }
}

/// A cursor with a single frame.
pub struct StaticCursor {
    pub image: InstantiatedCursorImage,
}

impl Cursor for StaticCursor {
    open spec fn cursor_wf(&self) -> bool {
        true
    }

    fn render(&self, renderer: &mut Renderer, x: Fixed, y: Fixed)
        ensures
            spec_render_img(self.image, *old(renderer), *final(renderer), x, y),
    {
        render_img(&self.image, renderer, x, y);
    }

    fn render_hardware_cursor(&self, renderer: &mut Renderer)
        ensures
            spec_render_hw(self.image, *old(renderer), *final(renderer)),
    {
        render_img_hw(&self.image, renderer);
    }

    fn extents_at_scale(&self, scale: Scale) -> (r: Rect)
        ensures
            r == spec_extents_at_scale(self.image, scale),
    {
        extents_of_img(&self.image, scale)
    }

    /// A static cursor never changes under the render clock.
    fn tick(&mut self, now_ns: u64)
        ensures
            *final (self) == *old(self),
    {
    }

    fn needs_tick(&self) -> (r: bool)
        ensures
            !r,
    {
        false
    }

    /// A static cursor is never due.
    fn time_until_tick(&self, now_ns: u64) -> (r: u64)
        ensures
            r == 0,
    {
        0
    }
}

/// The time elapsed since an instance's epoch, clamped at zero for clock
/// values before it.
pub open spec fn spec_elapsed(start: u64, now_ns: u64) -> u64 {
    if now_ns >= start {
        (now_ns - start) as u64
    } else {
        0u64
    }
}

/// The wrapped sum of a deadline and a frame delay.
pub open spec fn spec_wrap_add_u64(a: u64, b: u64) -> u64 {
    if a + b > u64::MAX {
        (a + b - 0x10000000000000000) as u64
    } else {
        (a + b) as u64
    }
}

/// A cursor that cycles through its frames, locked to the epoch at which it
/// was instantiated: the deadline accumulates whole frame delays, so timing
/// drift does not compound.
pub struct AnimatedCursor {
    /// The clock value at instantiation, in nanoseconds.
    pub start: u64,
    /// Nanoseconds after `start` at which the next frame becomes due.
    pub next: u64,
    /// The index of the frame currently shown.
    pub idx: usize,
    /// The frames, one per animation step, all bound to one logical size.
    pub images: Vec<InstantiatedCursorImage>,
}

impl AnimatedCursor {
    /// Validity: at least one frame exists and the index points at one.
    pub open spec fn wf(&self) -> bool {
        self.images@.len() >= 1 && self.idx < self.images@.len()
    }
}

impl Cursor for AnimatedCursor {
    open spec fn cursor_wf(&self) -> bool {
        self.wf()
    }

    fn render(&self, renderer: &mut Renderer, x: Fixed, y: Fixed)
        ensures
            spec_render_img(self.images@[self.idx as int], *old(renderer), *final(renderer), x, y),
    {
        render_img(&self.images[self.idx], renderer, x, y);
    }

    fn render_hardware_cursor(&self, renderer: &mut Renderer)
        ensures
            spec_render_hw(self.images@[self.idx as int], *old(renderer), *final(renderer)),
    {
        render_img_hw(&self.images[self.idx], renderer);
    }

    fn extents_at_scale(&self, scale: Scale) -> (r: Rect)
        ensures
            r == spec_extents_at_scale(self.images@[self.idx as int], scale),
    {
        extents_of_img(&self.images[self.idx], scale)
    }

    /// Advances the frame index, wrapping around, and accumulates the new
    /// frame's delay onto the deadline — when the deadline has passed.
    fn tick(&mut self, now_ns: u64)
        ensures
            final (self).start == old(self).start,
            final (self).images == old(self).images,
            spec_elapsed(old(self).start, now_ns) < old(self).next ==> *final (self) == *old(self),
            spec_elapsed(old(self).start, now_ns) >= old(self).next ==> {
                &&& final (self).idx == (old(self).idx + 1) % (old(self).images@.len() as int)
                &&& final (self).next == spec_wrap_add_u64(
                    old(self).next,
                    old(self).images@[final (self).idx as int].delay_ns,
                )
            },
    {
        let dist = if now_ns >= self.start {
            now_ns - self.start
        } else {
            0
        };
        if dist < self.next {
            return ;
        }
        let n = self.images.len();
        let idx = (self.idx + 1) % n;
        self.idx = idx;
        self.next = self.next.wrapping_add(self.images[idx].delay_ns);
    }

    fn needs_tick(&self) -> (r: bool)
        ensures
            r,
    {
        true
    }

    /// The non-negative time left until the deadline; zero exactly when the
    /// next `tick` call advances the frame.
    fn time_until_tick(&self, now_ns: u64) -> (r: u64)
        ensures
            r == if self.next > spec_elapsed(self.start, now_ns) {
                self.next - spec_elapsed(self.start, now_ns)
            } else {
                0int
            },
            (r == 0) <==> (spec_elapsed(self.start, now_ns) >= self.next),
    {
        let dist = if now_ns >= self.start {
            now_ns - self.start
        } else {
            0
        };
        self.next.saturating_sub(dist)
    }
}

/// A render-facing cursor bound to one logical size: the tagged union of the
/// static and the animated variant.
pub enum CursorInstance {
    Static(StaticCursor),
    Animated(AnimatedCursor),
}

impl CursorInstance {
    /// Validity of the instance.
    pub open spec fn wf(&self) -> bool {
        match self {
            CursorInstance::Static(_) => true,
            CursorInstance::Animated(a) => a.wf(),
        }
    }

    /// The frame the instance currently shows.
    pub open spec fn spec_current_image(&self) -> InstantiatedCursorImage {
        match self {
            CursorInstance::Static(s) => s.image,
            CursorInstance::Animated(a) => a.images@[a.idx as int],
        }
    }

    /// Draws the current frame at a hotspot-relative position.
    pub fn render(&self, renderer: &mut Renderer, x: Fixed, y: Fixed)
        requires
            old(renderer).scale.wf(),
            self.wf(),
        ensures
            spec_render_img(self.spec_current_image(), *old(renderer), *final(renderer), x, y),
    {
        match self {
            CursorInstance::Static(s) => s.render(renderer, x, y),
            CursorInstance::Animated(a) => a.render(renderer, x, y),
        }
    }

    /// Draws the current frame at the origin of the hardware cursor plane.
    pub fn render_hardware_cursor(&self, renderer: &mut Renderer)
        requires
            self.wf(),
        ensures
            spec_render_hw(self.spec_current_image(), *old(renderer), *final(renderer)),
    {
        match self {
            CursorInstance::Static(s) => s.render_hardware_cursor(renderer),
            CursorInstance::Animated(a) => a.render_hardware_cursor(renderer),
        }
    }

    /// The current frame's hotspot-relative extents for a scale.
    pub fn extents_at_scale(&self, scale: Scale) -> (r: Rect)
        requires
            self.wf(),
        ensures
            r == spec_extents_at_scale(self.spec_current_image(), scale),
    {
        match self {
            CursorInstance::Static(s) => s.extents_at_scale(scale),
            CursorInstance::Animated(a) => a.extents_at_scale(scale),
        }
    }

    /// Advances an animated instance if a frame is due at `now_ns`; a static
    /// instance never changes.
    pub fn tick(&mut self, now_ns: u64)
        requires
            old(self).wf(),
        ensures
            final (self).wf(),
            *old(self) is Static ==> *final (self) == *old(self),
            *old(self) matches CursorInstance::Animated(a0) ==> (*final (self) matches
                CursorInstance::Animated(a1) && {
                &&& a1.start == a0.start
                &&& a1.images == a0.images
                &&& (spec_elapsed(a0.start, now_ns) < a0.next ==> a1 == a0)
                &&& (spec_elapsed(a0.start, now_ns) >= a0.next ==> {
                    &&& a1.idx == (a0.idx + 1) % (a0.images@.len() as int)
                    &&& a1.next == spec_wrap_add_u64(a0.next, a0.images@[a1.idx as int].delay_ns)
                })
            }),
    {
        match self {
            CursorInstance::Static(_) => {},
            CursorInstance::Animated(a) => a.tick(now_ns),
        }
    }

    /// Whether the render loop must schedule `tick` calls: true only for the
    /// animated variant.
    pub fn needs_tick(&self) -> (r: bool)
        ensures
            r == (self is Animated),
    {
        match self {
            CursorInstance::Static(_) => false,
            CursorInstance::Animated(_) => true,
        }
    }

    /// The nanoseconds left until the next `tick` advances a frame; zero for
    /// a static instance.
    pub fn time_until_tick(&self, now_ns: u64) -> (r: u64)
        requires
            self.wf(),
        ensures
            self is Static ==> r == 0,
            self matches CursorInstance::Animated(a) ==> {
                &&& r == if a.next > spec_elapsed(a.start, now_ns) {
                    a.next - spec_elapsed(a.start, now_ns)
                } else {
                    0int
                }
                &&& ((r == 0) <==> (spec_elapsed(a.start, now_ns) >= a.next))
            },
    {
        match self {
            CursorInstance::Static(_) => 0,
            CursorInstance::Animated(a) => a.time_until_tick(now_ns),
        }
    }
}

/// The image set of a cursor template: a single frame or an ordered sequence
/// of frames.
pub enum ServerCursorTemplateVariant {
    Static(CursorImage),
    Animated(Vec<CursorImage>),
}

/// The per-kind owner of the decoded and uploaded image set; it knows whether
/// the kind is static or animated and builds instances bound to one size.
pub struct ServerCursorTemplate {
    pub var: ServerCursorTemplateVariant,
    pub xcursor: Vec<Vec<(ScaleSize, XCursorImage)>>,
}

/// Two decoded images hold the same data.
pub open spec fn img_eq(a: XCursorImage, b: XCursorImage) -> bool {
    &&& a.width == b.width
    &&& a.height == b.height
    &&& a.xhot == b.xhot
    &&& a.yhot == b.yhot
    &&& a.delay == b.delay
    &&& a.pixels@ == b.pixels@
}

/// Two decoded frame sets hold the same data.
pub open spec fn frames_like(
    a: Seq<Vec<(ScaleSize, XCursorImage)>>,
    b: Seq<Vec<(ScaleSize, XCursorImage)>>,
) -> bool {
    &&& a.len() == b.len()
    &&& forall|f: int| 0 <= f < a.len() ==> (#[trigger] a[f])@.len() == b[f]@.len()
    &&& forall|f: int, k: int|
        0 <= f < a.len() && 0 <= k < a[f]@.len() ==> {
            &&& (#[trigger] a[f]@[k]).0 == b[f]@[k].0
            &&& img_eq(a[f]@[k].1, b[f]@[k].1)
        }
}

/// Copies a decoded frame set, pixel buffers included.
fn clone_frames(src: &Vec<Vec<(ScaleSize, XCursorImage)>>) -> (r: Vec<Vec<(ScaleSize, XCursorImage)>>)
    ensures
        frames_like(r@, src@),
{
    let mut r: Vec<Vec<(ScaleSize, XCursorImage)>> = Vec::new();
    let mut f: usize = 0;
    while f < src.len()
        invariant
            f <= src@.len(),
            r@.len() == f,
            forall|i: int| 0 <= i < f ==> (#[trigger] r@[i])@.len() == src@[i]@.len(),
            forall|i: int, k: int|
                0 <= i < f && 0 <= k < r@[i]@.len() ==> {
                    &&& (#[trigger] r@[i]@[k]).0 == src@[i]@[k].0
                    &&& img_eq(r@[i]@[k].1, src@[i]@[k].1)
                },
        decreases src@.len() - f,
    {
        let frame = &src[f];
        let mut row: Vec<(ScaleSize, XCursorImage)> = Vec::new();
        let mut k: usize = 0;
        while k < frame.len()
            invariant
                k <= frame@.len(),
                row@.len() == k,
                forall|j: int|
                    0 <= j < k ==> {
                        &&& (#[trigger] row@[j]).0 == frame@[j].0
                        &&& img_eq(row@[j].1, frame@[j].1)
                    },
            decreases frame@.len() - k,
        {
            row.push((frame[k].0, frame[k].1.clone()));
            k = k + 1;
        }
        r.push(row);
        f = f + 1;
    }
    r
}

/// Uploads one decoded frame: pairs each entry with its texture, in order,
/// starting at `tex_base`.
fn upload_frame(
    frame: &Vec<(ScaleSize, XCursorImage)>,
    tex: &Vec<TextureId>,
    tex_base: usize,
) -> (r: Vec<(ScaleSize, CursorImageScaled)>)
    requires
        tex_base + frame@.len() <= tex@.len(),
        forall|k: int|
            0 <= k < frame@.len() ==> {
                let img = (#[trigger] frame@[k]).1;
                0 <= img.width && 0 <= img.height && 0 <= img.xhot && 0 <= img.yhot
            },
    ensures
        frame_matches(r@, frame@, tex@, tex_base as int),
{
    let _tl = tex.len();
    let mut r: Vec<(ScaleSize, CursorImageScaled)> = Vec::new();
    let mut k: usize = 0;
    while k < frame.len()
        invariant
            k <= frame@.len(),
            tex_base + frame@.len() <= tex@.len(),
            tex@.len() <= usize::MAX,
            forall|j: int|
                0 <= j < frame@.len() ==> {
                    let img = (#[trigger] frame@[j]).1;
                    0 <= img.width && 0 <= img.height && 0 <= img.xhot && 0 <= img.yhot
                },
            r@.len() == k,
            forall|j: int|
                0 <= j < k ==> {
                    &&& (#[trigger] r@[j]).0 == frame@[j].0
                    &&& scaled_matches(r@[j].1, frame@[j].1, tex@[tex_base + j])
                },
        decreases frame@.len() - k,
    {
        let key = frame[k].0;
        let img = &frame[k].1;
        let scaled = CursorImageScaled::from_bytes(
            tex[tex_base + k],
            img.width,
            img.height,
            img.xhot,
            img.yhot,
        );
        r.push((key, scaled));
        k = k + 1;
    }
    r
}

/// The uploaded image corresponds to a decoded image and its texture: the
/// extents rectangle has its origin at the negated hotspot and the image's
/// size.
pub open spec fn scaled_matches(c: CursorImageScaled, img: XCursorImage, tex: TextureId) -> bool {
    &&& c.tex == tex
    &&& c.extents.x1 == -img.xhot
    &&& c.extents.y1 == -img.yhot
    &&& c.extents.x2 == img.width - img.xhot
    &&& c.extents.y2 == img.height - img.yhot
}

/// The declared delay of a decoded frame: the delay of its last entry, or
/// zero for an empty frame.
pub open spec fn spec_frame_delay(frame: Seq<(ScaleSize, XCursorImage)>) -> u64 {
    if frame.len() == 0 {
        0u64
    } else {
        frame.last().1.delay as u64
    }
}

/// An uploaded frame corresponds to a decoded frame under the given textures:
/// same keys in the same order, each image uploaded as its texture.
pub open spec fn frame_matches(
    sizes: Seq<(ScaleSize, CursorImageScaled)>,
    frame: Seq<(ScaleSize, XCursorImage)>,
    tex: Seq<TextureId>,
    tex_base: int,
) -> bool {
    &&& sizes.len() == frame.len()
    &&& forall|k: int|
        0 <= k < frame.len() ==> {
            &&& (#[trigger] sizes[k]).0 == frame[k].0
            &&& scaled_matches(sizes[k].1, frame[k].1, tex[tex_base + k])
        }
}

impl ServerCursorTemplate {
    /// Validity: an animated template has at least one frame.
    pub open spec fn wf(&self) -> bool {
        match self.var {
            ServerCursorTemplateVariant::Static(_) => true,
            ServerCursorTemplateVariant::Animated(frames) => frames@.len() >= 1,
        }
    }

    /// Wraps a decoded file and the textures uploaded for it, one texture per
    /// decoded image in frame-major order. A single decoded frame yields a
    /// static template; several yield an animated one whose per-frame delay
    /// is the frame's declared delay, clamped up to one millisecond.
    pub fn from_decoded(cs: &OpenCursorResult, tex: &Vec<TextureId>) -> (r: ServerCursorTemplate)
        requires
            cs.images@.len() >= 1,
            cs.images@[0]@.len() >= 1,
            forall|f: int|
                0 <= f < cs.images@.len() ==> (#[trigger] cs.images@[f])@.len()
                    == cs.images@[0]@.len(),
            tex@.len() == cs.images@.len() * cs.images@[0]@.len(),
            forall|f: int, k: int|
                0 <= f < cs.images@.len() && 0 <= k < cs.images@[f]@.len() ==> {
                    let img = (#[trigger] cs.images@[f]@[k]).1;
                    0 <= img.width && 0 <= img.height && 0 <= img.xhot && 0 <= img.yhot
                },
        ensures
            r.wf(),
            frames_like(r.xcursor@, cs.images@),
            cs.images@.len() == 1 ==> (r.var matches ServerCursorTemplateVariant::Static(img) && {
                &&& img.delay_ns == 1_000_000
                &&& frame_matches(img.sizes@, cs.images@[0]@, tex@, 0)
            }),
            cs.images@.len() > 1 ==> (r.var matches ServerCursorTemplateVariant::Animated(frames)
                && {
                &&& frames@.len() == cs.images@.len()
                &&& forall|f: int|
                    0 <= f < frames@.len() ==> {
                        &&& (#[trigger] frames@[f]).delay_ns == spec_delay_ns(
                            spec_frame_delay(cs.images@[f]@),
                        )
                        &&& frame_matches(
                            frames@[f].sizes@,
                            cs.images@[f]@,
                            tex@,
                            f * cs.images@[0]@.len(),
                        )
                    }
            }),
    {
        let per = cs.images[0].len();
        let nframes = cs.images.len();
        if nframes == 1 {
            let sizes = upload_frame(&cs.images[0], tex, 0);
            let cursor = CursorImage::from_sizes(0, sizes);
            ServerCursorTemplate {
                var: ServerCursorTemplateVariant::Static(cursor),
                xcursor: clone_frames(&cs.images),
            }
        } else {
            let _tl = tex.len();
            let mut images: Vec<CursorImage> = Vec::new();
            let mut f: usize = 0;
            while f < nframes
                invariant
                    f <= nframes,
                    nframes == cs.images@.len(),
                    per == cs.images@[0]@.len(),
                    per >= 1,
                    tex@.len() == cs.images@.len() * per,
                    tex@.len() <= usize::MAX,
                    forall|i: int|
                        0 <= i < cs.images@.len() ==> (#[trigger] cs.images@[i])@.len() == per,
                    forall|i: int, k: int|
                        0 <= i < cs.images@.len() && 0 <= k < cs.images@[i]@.len() ==> {
                            let img = (#[trigger] cs.images@[i]@[k]).1;
                            0 <= img.width && 0 <= img.height && 0 <= img.xhot && 0 <= img.yhot
                        },
                    images@.len() == f,
                    forall|i: int|
                        0 <= i < f ==> {
                            &&& (#[trigger] images@[i]).delay_ns == spec_delay_ns(
                                spec_frame_delay(cs.images@[i]@),
                            )
                            &&& frame_matches(images@[i].sizes@, cs.images@[i]@, tex@, i * per)
                        },
                decreases nframes - f,
            {
                proof {
                    assert(0 <= f * per && (f + 1) * per <= cs.images@.len() * per)
                        by (nonlinear_arith)
                        requires
                            0 <= f,
                            f + 1 <= cs.images@.len(),
                            per >= 1,
                    ;
                    assert(f * per + per == (f + 1) * per) by (nonlinear_arith);
                }
                let frame = &cs.images[f];
                let delay_ms = frame[per - 1].1.delay as u64;
                proof {
                    assert(frame@.last() == frame@[per - 1]);
                }
                let sizes = upload_frame(frame, tex, f * per);
                images.push(CursorImage::from_sizes(delay_ms, sizes));
                f = f + 1;
            }
            ServerCursorTemplate {
                var: ServerCursorTemplateVariant::Animated(images),
                xcursor: clone_frames(&cs.images),
            }
        }
    }

    /// Builds an instance bound to one logical size: a static template wraps
    /// its frame directly; an animated template starts at frame zero, with
    /// the render clock's current time as its epoch and the first frame's
    /// delay as its deadline.
    pub fn instantiate(&self, now_ns: u64, size: u32) -> (r: CursorInstance)
        requires
            self.wf(),
        ensures
            r.wf(),
            match self.var {
                ServerCursorTemplateVariant::Static(img) => r matches CursorInstance::Static(s) && {
                    &&& s.image.delay_ns == img.delay_ns
                    &&& s.image.scales@ == spec_for_size(img.sizes@, size)
                },
                ServerCursorTemplateVariant::Animated(frames) => r matches CursorInstance::Animated(
                    a,
                ) && {
                    &&& a.start == now_ns
                    &&& a.idx == 0
                    &&& a.next == frames@[0].delay_ns
                    &&& a.images@.len() == frames@.len()
                    &&& forall|f: int|
                        0 <= f < frames@.len() ==> {
                            &&& (#[trigger] a.images@[f]).delay_ns == frames@[f].delay_ns
                            &&& a.images@[f].scales@ == spec_for_size(frames@[f].sizes@, size)
                        }
                },
            },
    {
        match &self.var {
            ServerCursorTemplateVariant::Static(img) => {
                CursorInstance::Static(StaticCursor { image: img.for_size(size) })
            },
            ServerCursorTemplateVariant::Animated(frames) => {
                let mut images: Vec<InstantiatedCursorImage> = Vec::new();
                let mut f: usize = 0;
                while f < frames.len()
                    invariant
                        f <= frames@.len(),
                        images@.len() == f,
                        forall|i: int|
                            0 <= i < f ==> {
                                &&& (#[trigger] images@[i]).delay_ns == frames@[i].delay_ns
                                &&& images@[i].scales@ == spec_for_size(frames@[i].sizes@, size)
                            },
                    decreases frames@.len() - f,
                {
                    images.push(frames[f].for_size(size));
                    f = f + 1;
                }
                CursorInstance::Animated(
                    AnimatedCursor { start: now_ns, next: frames[0].delay_ns, idx: 0, images },
                )
            },
        }
    }
}

/// The pixel bytes of the synthetic fully transparent one-by-one image that
/// stands in for a cursor kind whose theme file could not be loaded.
pub fn fallback_pixels() -> (r: Vec<u8>)
    ensures
        r@ == seq![0u8, 0u8, 0u8, 0u8],
{
    let v: Vec<u8> = vec![0u8, 0u8, 0u8, 0u8];
    v
}

/// Builds the guaranteed-present fallback template after any load failure: a
/// static template holding a one-by-one transparent image for every requested
/// (scale, size) pair, with one uploaded texture per pair in scale-major
/// order.
pub fn fallback_template(scales: &Vec<Scale>, sizes: &Vec<u32>, tex: &Vec<TextureId>) -> (r:
    ServerCursorTemplate)
    requires
        tex@.len() == scales@.len() * sizes@.len(),
    ensures
        r.wf(),
        r.xcursor@.len() == 0,
        r.var matches ServerCursorTemplateVariant::Static(img) && {
            &&& img.delay_ns == 1_000_000
            &&& img.sizes@.len() == scales@.len() * sizes@.len()
            &&& forall|k: int|
                0 <= k < img.sizes@.len() ==> {
                    &&& (#[trigger] img.sizes@[k]).0 == ScaleSize {
                        scale: scales@[k / sizes@.len() as int],
                        size: sizes@[k % sizes@.len() as int],
                    }
                    &&& img.sizes@[k].1 == CursorImageScaled {
                        extents: Rect { x1: 0, y1: 0, x2: 1, y2: 1 },
                        tex: tex@[k],
                    }
                }
        },
{
    let n = scales.len();
    let m = sizes.len();
    let _tl = tex.len();
    let mut entries: Vec<(ScaleSize, CursorImageScaled)> = Vec::new();
    let mut i: usize = 0;
    while i < n
        invariant
            i <= n,
            n == scales@.len(),
            m == sizes@.len(),
            tex@.len() == n * m,
            tex@.len() <= usize::MAX,
            entries@.len() == i * m,
            forall|k: int|
                0 <= k < entries@.len() ==> {
                    &&& (#[trigger] entries@[k]).0 == ScaleSize {
                        scale: scales@[k / m as int],
                        size: sizes@[k % m as int],
                    }
                    &&& entries@[k].1 == CursorImageScaled {
                        extents: Rect { x1: 0, y1: 0, x2: 1, y2: 1 },
                        tex: tex@[k],
                    }
                },
        decreases n - i,
    {
        proof {
            assert(i * m + m == (i + 1) * m) by (nonlinear_arith);
            assert((i + 1) * m <= n * m) by (nonlinear_arith)
                requires
                    i + 1 <= n,
                    m >= 0,
            ;
            assert(0 <= i * m) by (nonlinear_arith)
                requires
                    0 <= i,
                    0 <= m,
            ;
        }
        let mut j: usize = 0;
        while j < m
            invariant
                j <= m,
                i < n,
                n == scales@.len(),
                m == sizes@.len(),
                tex@.len() == n * m,
                tex@.len() <= usize::MAX,
                entries@.len() == i * m + j,
                i * m + m <= n * m,
                0 <= i * m,
                forall|k: int|
                    0 <= k < entries@.len() ==> {
                        &&& (#[trigger] entries@[k]).0 == ScaleSize {
                            scale: scales@[k / m as int],
                            size: sizes@[k % m as int],
                        }
                        &&& entries@[k].1 == CursorImageScaled {
                            extents: Rect { x1: 0, y1: 0, x2: 1, y2: 1 },
                            tex: tex@[k],
                        }
                    },
            decreases m - j,
        {
            let scaled = CursorImageScaled::from_bytes(tex[entries.len()], 1, 1, 0, 0);
            proof {
                let k = i * m + j;
                vstd::arithmetic::div_mod::lemma_fundamental_div_mod_converse(
                    k as int,
                    m as int,
                    i as int,
                    j as int,
                );
            }
            entries.push((ScaleSize { scale: scales[i], size: sizes[j] }, scaled));
            j = j + 1;
        }
        i = i + 1;
    }
    let cursor = CursorImage::from_sizes(0, entries);
    ServerCursorTemplate {
        var: ServerCursorTemplateVariant::Static(cursor),
        xcursor: Vec::new(),
    }
}

/// The per-kind cursor set of the active theme configuration, one template
/// per well-known cursor kind, in declaration order.
pub struct ServerCursors {
    pub templates: Vec<ServerCursorTemplate>,
}

impl ServerCursors {
    /// Validity: one well-formed template per cursor kind.
    pub open spec fn wf(&self) -> bool {
        &&& self.templates@.len() == KNOWN_CURSOR_COUNT
        &&& forall|i: int| 0 <= i < self.templates@.len() ==> (#[trigger] self.templates@[i]).wf()
    }

    /// Assembles the cursor set from the per-kind templates, or `None` when
    /// no scale or no size is configured yet and nothing was loaded.
    pub fn load(scales: &Vec<Scale>, sizes: &Vec<u32>, templates: Vec<ServerCursorTemplate>) -> (r:
        Option<ServerCursors>)
        requires
            scales@.len() > 0 && sizes@.len() > 0 ==> templates@.len() == KNOWN_CURSOR_COUNT
                && (forall|i: int|
                0 <= i < templates@.len() ==> (#[trigger] templates@[i]).wf()),
        ensures
            match r {
                None => scales@.len() == 0 || sizes@.len() == 0,
                Some(s) => {
                    &&& scales@.len() > 0 && sizes@.len() > 0
                    &&& s.templates == templates
                    &&& s.wf()
                },
            },
    {
        if scales.len() == 0 || sizes.len() == 0 {
            return None;
        }
        Some(ServerCursors { templates })
    }

    /// The template loaded for a cursor kind.
    pub fn get(&self, kind: KnownCursor) -> (r: &ServerCursorTemplate)
        requires
            self.wf(),
        ensures
            *r == self.templates@[kind.spec_index()],
            r.wf(),
    {
        &self.templates[kind.index()]
    }
}

/// The candidate file names of a cursor kind, tried in priority order: the
/// alternatives name one semantic cursor, so a theme implementing only the
/// legacy name still serves the kind before any fallback theme is consulted.
pub open spec fn spec_candidate_names(kind: KnownCursor) -> Seq<Seq<char>> {
    match kind {
        KnownCursor::Default => seq!["default"@, "left_ptr"@],
        KnownCursor::ContextMenu => seq!["context-menu"@],
        KnownCursor::Help => seq!["help"@],
        KnownCursor::Pointer => seq!["pointer"@, "hand2"@, "hand1"@],
        KnownCursor::Progress => seq!["progress"@],
        KnownCursor::Wait => seq!["wait"@, "watch"@],
        KnownCursor::Cell => seq!["cell"@],
        KnownCursor::Crosshair => seq!["crosshair"@],
        KnownCursor::Text => seq!["text"@, "xterm"@],
        KnownCursor::VerticalText => seq!["vertical-text"@],
        KnownCursor::Alias => seq!["alias"@],
        KnownCursor::Copy => seq!["copy"@],
        KnownCursor::Move => seq!["move"@],
        KnownCursor::NoDrop => seq!["no-drop"@],
        KnownCursor::NotAllowed => seq!["not-allowed"@],
        KnownCursor::Grab => seq!["grab"@],
        KnownCursor::Grabbing => seq!["grabbing"@],
        KnownCursor::EResize => seq!["e-resize"@, "right_side"@],
        KnownCursor::NResize => seq!["n-resize"@, "top_side"@],
        KnownCursor::NeResize => seq!["ne-resize"@, "top_right_corner"@],
        KnownCursor::NwResize => seq!["nw-resize"@, "top_left_corner"@],
        KnownCursor::SResize => seq!["s-resize"@, "bottom_side"@],
        KnownCursor::SeResize => seq!["se-resize"@, "bottom_right_corner"@],
        KnownCursor::SwResize => seq!["sw-resize"@, "bottom_left_corner"@],
        KnownCursor::WResize => seq!["w-resize"@, "left_side"@],
        KnownCursor::EwResize => seq!["ew-resize"@, "h_double_arrow"@],
        KnownCursor::NsResize => seq!["ns-resize"@, "v_double_arrow"@],
        KnownCursor::NeswResize => seq!["nesw-resize"@],
        KnownCursor::NwseResize => seq!["nwse-resize"@],
        KnownCursor::ColResize => seq!["col-resize"@],
        KnownCursor::RowResize => seq!["row-resize"@],
        KnownCursor::AllScroll => seq!["all-scroll"@, "grabbing"@],
        KnownCursor::ZoomIn => seq!["zoom-in"@],
        KnownCursor::ZoomOut => seq!["zoom-out"@],
        KnownCursor::DndAsk => seq!["dnd-ask"@, "dnd-copy"@, "copy"@],
        KnownCursor::AllResize => seq!["all-resize"@, "move"@],
    }
}

/// The candidate file names of a cursor kind, tried in priority order.
pub fn candidate_names(kind: KnownCursor) -> (r: Vec<&'static str>)
    ensures
        r@.map_values(|s: &str| s@) == spec_candidate_names(kind),
{
    let r: Vec<&'static str> = match kind {
        KnownCursor::Default => vec!["default", "left_ptr"],
        KnownCursor::ContextMenu => vec!["context-menu"],
        KnownCursor::Help => vec!["help"],
        KnownCursor::Pointer => vec!["pointer", "hand2", "hand1"],
        KnownCursor::Progress => vec!["progress"],
        KnownCursor::Wait => vec!["wait", "watch"],
        KnownCursor::Cell => vec!["cell"],
        KnownCursor::Crosshair => vec!["crosshair"],
        KnownCursor::Text => vec!["text", "xterm"],
        KnownCursor::VerticalText => vec!["vertical-text"],
        KnownCursor::Alias => vec!["alias"],
        KnownCursor::Copy => vec!["copy"],
        KnownCursor::Move => vec!["move"],
        KnownCursor::NoDrop => vec!["no-drop"],
        KnownCursor::NotAllowed => vec!["not-allowed"],
        KnownCursor::Grab => vec!["grab"],
        KnownCursor::Grabbing => vec!["grabbing"],
        KnownCursor::EResize => vec!["e-resize", "right_side"],
        KnownCursor::NResize => vec!["n-resize", "top_side"],
        KnownCursor::NeResize => vec!["ne-resize", "top_right_corner"],
        KnownCursor::NwResize => vec!["nw-resize", "top_left_corner"],
        KnownCursor::SResize => vec!["s-resize", "bottom_side"],
        KnownCursor::SeResize => vec!["se-resize", "bottom_right_corner"],
        KnownCursor::SwResize => vec!["sw-resize", "bottom_left_corner"],
        KnownCursor::WResize => vec!["w-resize", "left_side"],
        KnownCursor::EwResize => vec!["ew-resize", "h_double_arrow"],
        KnownCursor::NsResize => vec!["ns-resize", "v_double_arrow"],
        KnownCursor::NeswResize => vec!["nesw-resize"],
        KnownCursor::NwseResize => vec!["nwse-resize"],
        KnownCursor::ColResize => vec!["col-resize"],
        KnownCursor::RowResize => vec!["row-resize"],
        KnownCursor::AllScroll => vec!["all-scroll", "grabbing"],
        KnownCursor::ZoomIn => vec!["zoom-in"],
        KnownCursor::ZoomOut => vec!["zoom-out"],
        KnownCursor::DndAsk => vec!["dnd-ask", "dnd-copy", "copy"],
        KnownCursor::AllResize => vec!["all-resize", "move"],
    };
    proof {
        assert(r@.map_values(|s: &str| s@) =~= spec_candidate_names(kind));
    }
    r
}

/// Whether the byte is an ASCII decimal digit.
pub open spec fn is_ascii_digit(b: u8) -> bool {
    48 <= b <= 57
}

/// The value of a string of decimal digits.
pub open spec fn digits_val(s: Seq<u8>) -> int
    decreases s.len(),
{
    if s.len() == 0 {
        0
    } else {
        digits_val(s.drop_last()) * 10 + (s.last() - 48)
    }
}

/// The value of a non-empty, all-digit string, or `None` otherwise or when
/// the value does not fit in `u32`.
pub open spec fn spec_parse_digits(digits: Seq<u8>) -> Option<u32> {
    if digits.len() == 0 || (exists|i: int|
        0 <= i < digits.len() && !is_ascii_digit(#[trigger] digits[i])) {
        None
    } else if digits_val(digits) > u32::MAX {
        None
    } else {
        Some(digits_val(digits) as u32)
    }
}

/// The value of an unsigned decimal number with an optional leading plus
/// sign, or `None` when the string is not of that shape or the value does not
/// fit in `u32`.
pub open spec fn spec_parse_u32(s: Seq<u8>) -> Option<u32> {
    if s.len() > 0 && s[0] == 43 {
        spec_parse_digits(s.subrange(1, s.len() as int))
    } else {
        spec_parse_digits(s)
    }
}

proof fn lemma_digits_val_nonneg(s: Seq<u8>)
    requires
        forall|i: int| 0 <= i < s.len() ==> is_ascii_digit(#[trigger] s[i]),
    ensures
        digits_val(s) >= 0,
    decreases s.len(),
{
    if s.len() > 0 {
        lemma_digits_val_nonneg(s.drop_last());
    }
}

proof fn lemma_digits_val_prefix(s: Seq<u8>, i: int)
    requires
        0 <= i <= s.len(),
        forall|j: int| 0 <= j < s.len() ==> is_ascii_digit(#[trigger] s[j]),
    ensures
        digits_val(s.subrange(0, i)) <= digits_val(s),
    decreases s.len() - i,
{
    if i < s.len() {
        let t = s.subrange(0, s.len() - 1);
        assert(t =~= s.drop_last());
        lemma_digits_val_prefix(t, i);
        assert(t.subrange(0, i) =~= s.subrange(0, i));
        lemma_digits_val_nonneg(t);
        assert(digits_val(s) == digits_val(t) * 10 + (s.last() - 48));
        assert(digits_val(t) * 10 >= digits_val(t)) by (nonlinear_arith)
            requires
                digits_val(t) >= 0,
        ;
    } else {
        assert(s.subrange(0, i) =~= s);
    }
}

/// Parses the digits of a decimal number, `None` when a byte is not a digit
/// or the value does not fit in `u32`.
fn parse_digits(s: &Vec<u8>, from: usize) -> (r: Option<u32>)
    requires
        from <= s@.len(),
    ensures
        r == spec_parse_digits(s@.subrange(from as int, s@.len() as int)),
{
    let ghost digits = s@.subrange(from as int, s@.len() as int);
    let len = s.len();
    if from == len {
        return None;
    }
    let mut acc: u64 = 0;
    let mut i: usize = from;
    while i < len
        invariant
            from <= i <= len,
            len == s@.len(),
            digits == s@.subrange(from as int, s@.len() as int),
            forall|j: int| 0 <= j < i - from ==> is_ascii_digit(#[trigger] digits[j]),
            acc == digits_val(digits.subrange(0, i - from)),
            acc <= u32::MAX,
        decreases len - i,
    {
        let b = s[i];
        if b < 48 || b > 57 {
            proof {
                assert(digits[i - from] == b);
                assert(!is_ascii_digit(digits[i - from]));
                assert(spec_parse_digits(digits) is None);
            }
            return None;
        }
        proof {
            assert(digits.subrange(0, i + 1 - from).drop_last() =~= digits.subrange(
                0,
                i - from,
            ));
            assert(digits.subrange(0, i + 1 - from).last() == digits[i - from]);
            assert(digits[i - from] == b);
        }
        acc = acc * 10 + ((b - 48) as u64);
        if acc > u32::MAX as u64 {
            proof {
                if forall|j: int| 0 <= j < digits.len() ==> is_ascii_digit(#[trigger] digits[j]) {
                    lemma_digits_val_prefix(digits, i + 1 - from);
                    assert(digits_val(digits) > u32::MAX);
                    assert(spec_parse_digits(digits) is None);
                } else {
                    let w = choose|j: int|
                        0 <= j < digits.len() && !is_ascii_digit(#[trigger] digits[j]);
                    assert(!is_ascii_digit(digits[w]));
                    assert(spec_parse_digits(digits) is None);
                }
            }
            return None;
        }
        i = i + 1;
    }
    proof {
        assert(digits.subrange(0, len - from) =~= digits);
        assert(spec_parse_digits(digits) == Some(acc as u32));
    }
    Some(acc as u32)
}

/// The default cursor size: the value of the size variable when it parses as
/// an unsigned decimal, else 24. The variable's value is resolved once at
/// startup and passed in.
pub fn default_cursor_size(var: Option<&Vec<u8>>) -> (r: u32)
    ensures
        match var {
            None => r == 24,
            Some(s) => match spec_parse_u32(s@) {
                Some(v) => r == v,
                None => r == 24,
            },
        },
{
    let s = match var {
        Some(s) => s,
        None => {
            return 24;
        },
    };
    let from: usize = if s.len() > 0 && s[0] == 43 {
        1
    } else {
        0
    };
    proof {
        if !(s@.len() > 0 && s@[0] == 43) {
            assert(s@.subrange(0, s@.len() as int) =~= s@);
        }
    }
    match parse_digits(s, from) {
        Some(v) => v,
        None => 24,
    }
}

/// Every element of a filtered sequence is an element of the unfiltered one.
proof fn lemma_filter_subset<A>(s: Seq<A>, pred: spec_fn(A) -> bool)
    ensures
        forall|i: int| 0 <= i < s.filter(pred).len() ==> s.contains(#[trigger] s.filter(pred)[i]),
    decreases s.len(),
{
    reveal(Seq::filter);
    if s.len() > 0 {
        let prefix = s.drop_last();
        lemma_filter_subset(prefix, pred);
        assert forall|i: int|
            0 <= i < s.filter(pred).len() implies s.contains(#[trigger] s.filter(pred)[i]) by {
            if i < prefix.filter(pred).len() {
                assert(s.filter(pred)[i] == prefix.filter(pred)[i]);
                assert(prefix.contains(prefix.filter(pred)[i]));
                let w = choose|w: int|
                    0 <= w < prefix.len() && prefix[w] == prefix.filter(pred)[i];
                assert(s[w] == s.filter(pred)[i]);
            } else {
                assert(pred(s.last()));
                assert(s.filter(pred)[i] == s.last());
                assert(s[s.len() - 1] == s.last());
            }
        }
    }
}

proof fn lemma_scale_lookup_member(s: Seq<(Scale, CursorImageScaled)>, scale: Scale)
    ensures
        scale_lookup(s, scale) matches Some(v) ==> exists|j: int|
            0 <= j < s.len() && #[trigger] s[j] == (scale, v),
        (exists|j: int| 0 <= j < s.len() && (#[trigger] s[j]).0 == scale) ==> scale_lookup(
            s,
            scale,
        ) is Some,
    decreases s.len(),
{
    if s.len() > 0 {
        lemma_scale_lookup_member(s.drop_first(), scale);
        if s[0].0 == scale {
            assert(s[0] == (scale, scale_lookup(s, scale)->Some_0));
        } else {
            if scale_lookup(s, scale) is Some {
                let v = scale_lookup(s, scale)->Some_0;
                let j = choose|j: int|
                    0 <= j < s.drop_first().len() && #[trigger] s.drop_first()[j] == (scale, v);
                assert(s[j + 1] == (scale, v));
            }
            if exists|j: int| 0 <= j < s.len() && (#[trigger] s[j]).0 == scale {
                let j = choose|j: int| 0 <= j < s.len() && (#[trigger] s[j]).0 == scale;
                assert(j >= 1);
                assert(s.drop_first()[j - 1].0 == scale);
            }
        }
    }
}

/// Law: after any load failure the synthesized fallback template stands in,
/// and an instance of it reports the well-defined one-by-one rectangle for
/// every requested scale and size — the cursor subsystem never fails outward
/// for a missing or malformed theme.
pub proof fn lemma_fallback_extents(
    scales: Seq<Scale>,
    sizes: Seq<u32>,
    tex: Seq<TextureId>,
    img: CursorImage,
    a: int,
    b: int,
)
    requires
        img.sizes@.len() == scales.len() * sizes.len(),
        forall|k: int|
            0 <= k < img.sizes@.len() ==> {
                &&& (#[trigger] img.sizes@[k]).0 == ScaleSize {
                    scale: scales[k / sizes.len() as int],
                    size: sizes[k % sizes.len() as int],
                }
                &&& img.sizes@[k].1 == CursorImageScaled {
                    extents: Rect { x1: 0, y1: 0, x2: 1, y2: 1 },
                    tex: tex[k],
                }
            },
        0 <= a < scales.len(),
        0 <= b < sizes.len(),
    ensures
        scale_lookup(spec_for_size(img.sizes@, sizes[b]), scales[a]) matches Some(v) && v.extents
            == (Rect { x1: 0, y1: 0, x2: 1, y2: 1 }),
{
    broadcast use vstd::seq_lib::group_seq_properties;

    let m = sizes.len() as int;
    let k = a * m + b;
    assert(0 <= a * m + b && a * m + b < scales.len() * m) by (nonlinear_arith)
        requires
            0 <= a < scales.len(),
            0 <= b < m,
    ;
    vstd::arithmetic::div_mod::lemma_fundamental_div_mod_converse(k, m, a, b);
    assert(img.sizes@[k].0 == ScaleSize { scale: scales[a], size: sizes[b] });
    let pred = |p: (ScaleSize, CursorImageScaled)| p.0.size == sizes[b];
    img.sizes@.lemma_filter_contains(pred, k);
    let filtered = img.sizes@.filter(pred);
    let fj = choose|fj: int| 0 <= fj < filtered.len() && filtered[fj] == img.sizes@[k];
    assert(spec_for_size(img.sizes@, sizes[b])[fj] == (scales[a], img.sizes@[k].1));
    lemma_scale_lookup_member(spec_for_size(img.sizes@, sizes[b]), scales[a]);
    assert(scale_lookup(spec_for_size(img.sizes@, sizes[b]), scales[a]) is Some);
    let v = scale_lookup(spec_for_size(img.sizes@, sizes[b]), scales[a])->Some_0;
    let j = choose|j: int|
        0 <= j < spec_for_size(img.sizes@, sizes[b]).len() && #[trigger] spec_for_size(
            img.sizes@,
            sizes[b],
        )[j] == (scales[a], v);
    lemma_filter_subset(img.sizes@, pred);
    assert(img.sizes@.contains(filtered[j]));
    let w = choose|w: int| 0 <= w < img.sizes@.len() && img.sizes@[w] == filtered[j];
    assert(v == img.sizes@[w].1);
    assert(v.extents == (Rect { x1: 0, y1: 0, x2: 1, y2: 1 }));
}

/// Law: a template frame built from a decoded frame whose keys are a list of
/// distinct targets holds exactly one uploaded image per target — the entry
/// at the target's position, and no other entry with that key.
pub proof fn lemma_one_gpu_image_per_target(
    sizes: Seq<(ScaleSize, CursorImageScaled)>,
    frame: Seq<(ScaleSize, XCursorImage)>,
    tex: Seq<TextureId>,
    tex_base: int,
    tgts: Seq<ScaleSize>,
)
    requires
        frame_matches(sizes, frame, tex, tex_base),
        frame.len() == tgts.len(),
        forall|k: int| 0 <= k < tgts.len() ==> (#[trigger] frame[k]).0 == tgts[k],
        tgts.no_duplicates(),
    ensures
        sizes.len() == tgts.len(),
        forall|k: int| 0 <= k < tgts.len() ==> (#[trigger] sizes[k]).0 == tgts[k],
        forall|k: int, k2: int|
            0 <= k < tgts.len() && 0 <= k2 < sizes.len() && (#[trigger] sizes[k2]).0 == #[trigger] tgts[k]
                ==> k2 == k,
{
    assert forall|k: int| 0 <= k < tgts.len() implies (#[trigger] sizes[k]).0 == tgts[k] by {
        assert(sizes[k].0 == frame[k].0);
    }
    assert forall|k: int, k2: int|
        0 <= k < tgts.len() && 0 <= k2 < sizes.len() && (#[trigger] sizes[k2]).0 == #[trigger] tgts[k]
            implies k2 == k by {
        assert(sizes[k2].0 == frame[k2].0);
        assert(tgts[k2] == tgts[k]);
    }
}

} // verus!
