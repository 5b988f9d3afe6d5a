use vstd::prelude::*;

verus! {

/// Size of a render target in pixels.
#[derive(Clone, Copy, Debug, PartialEq, Eq, Structural)]
pub struct ViewportSize {
    pub width: u32,
    pub height: u32,
}

impl ViewportSize {
    pub fn new(width: u32, height: u32) -> (v: ViewportSize)
        ensures
            v.width == width,
            v.height == height,
    {
        ViewportSize { width, height }
    }

    /// The same viewport with each side raised to at least one pixel.
    pub fn clamped(self) -> (v: ViewportSize)
        ensures
            v.width == if self.width == 0 { 1 } else { self.width },
            v.height == if self.height == 0 { 1 } else { self.height },
    {
        ViewportSize {
            width: if self.width < 1 { 1 } else { self.width },
            height: if self.height < 1 { 1 } else { self.height },
        }
    }
}

/// A rectangle of pixels, given by its top-left corner and its size.
#[derive(Clone, Copy, Debug, PartialEq, Eq, Structural)]
pub struct PickRegion {
    pub x: u32,
    pub y: u32,
    pub width: u32,
    pub height: u32,
}

impl PickRegion {
    pub fn rect(x: u32, y: u32, width: u32, height: u32) -> (r: PickRegion)
        ensures
            r == (PickRegion { x, y, width, height }),
    {
        PickRegion { x, y, width, height }
    }

    pub fn pixel(x: u32, y: u32) -> (r: PickRegion)
        ensures
            r == (PickRegion { x, y, width: 1, height: 1 }),
    {
        PickRegion { x, y, width: 1, height: 1 }
    }

    pub fn is_empty(&self) -> (r: bool)
        ensures
            r == (self.width == 0 || self.height == 0),
    {
        self.width == 0 || self.height == 0
    }
}

/// The part of `region` that lies inside the viewport (itself raised to one
/// pixel per side), or `None` when none of it does.
pub open spec fn clamped_pick_region(region: PickRegion, viewport: ViewportSize) -> Option<PickRegion> {
    let w = if viewport.width == 0 { 1 } else { viewport.width as int };
    let h = if viewport.height == 0 { 1 } else { viewport.height as int };
    if region.width == 0 || region.height == 0 || region.x >= w || region.y >= h {
        None
    } else {
        Some(PickRegion {
            x: region.x,
            y: region.y,
            width: if region.width <= w - region.x { region.width } else { (w - region.x) as u32 },
            height: if region.height <= h - region.y { region.height } else { (h - region.y) as u32 },
        })
    }
}

pub fn clamp_pick_region(region: PickRegion, viewport: ViewportSize) -> (r: Option<PickRegion>)
    ensures
        r == clamped_pick_region(region, viewport),
        r matches Some(c) ==> c.width >= 1 && c.height >= 1
            && c.x + c.width <= viewport.clamped_width()
            && c.y + c.height <= viewport.clamped_height(),
{
    let viewport = viewport.clamped();
    if region.is_empty() || region.x >= viewport.width || region.y >= viewport.height {
        return None;
    }
    let room_x = viewport.width - region.x;
    let room_y = viewport.height - region.y;
    Some(PickRegion {
        x: region.x,
        y: region.y,
        width: if region.width < room_x { region.width } else { room_x },
        height: if region.height < room_y { region.height } else { room_y },
    })
}

impl ViewportSize {
    pub open spec fn clamped_width(self) -> int {
        if self.width == 0 { 1 } else { self.width as int }
    }

    pub open spec fn clamped_height(self) -> int {
        if self.height == 0 { 1 } else { self.height as int }
    }
}

/// A region of at least `min_width` by `min_height` pixels (each capped by
/// the viewport) centred on `region` and moved to stay inside the viewport.
pub open spec fn expanded_pick_region(
    region: PickRegion,
    viewport: ViewportSize,
    min_width: u32,
    min_height: u32,
) -> PickRegion {
    let vw = viewport.clamped_width();
    let vh = viewport.clamped_height();
    let tw = vstd::math::min(vstd::math::max(region.width as int, min_width as int), vw);
    let th = vstd::math::min(vstd::math::max(region.height as int, min_height as int), vh);
    let cx = vstd::math::min(region.x + region.width / 2, u32::MAX as int);
    let cy = vstd::math::min(region.y + region.height / 2, u32::MAX as int);
    let x = vstd::math::min(vstd::math::max(cx - tw / 2, 0), vw - tw);
    let y = vstd::math::min(vstd::math::max(cy - th / 2, 0), vh - th);
    PickRegion { x: x as u32, y: y as u32, width: tw as u32, height: th as u32 }
}

fn saturating_add_u32(a: u32, b: u32) -> (r: u32)
    ensures
        r == vstd::math::min(a + b, u32::MAX as int),
{
    if a > u32::MAX - b {
        u32::MAX
    } else {
        a + b
    }
}

fn saturating_sub_u32(a: u32, b: u32) -> (r: u32)
    ensures
        r == vstd::math::max(a - b, 0),
{
    if a < b {
        0
    } else {
        a - b
    }
}

pub fn expand_pick_region_to_minimum(
    region: PickRegion,
    viewport: ViewportSize,
    min_width: u32,
    min_height: u32,
) -> (r: PickRegion)
    ensures
        r == expanded_pick_region(region, viewport, min_width, min_height),
        r.x + r.width <= viewport.clamped_width(),
        r.y + r.height <= viewport.clamped_height(),
{
    let viewport = viewport.clamped();
    let wide = if region.width > min_width { region.width } else { min_width };
    let target_width = if wide < viewport.width { wide } else { viewport.width };
    let tall = if region.height > min_height { region.height } else { min_height };
    let target_height = if tall < viewport.height { tall } else { viewport.height };
    let center_x = saturating_add_u32(region.x, region.width / 2);
    let center_y = saturating_add_u32(region.y, region.height / 2);
    let left = saturating_sub_u32(center_x, target_width / 2);
    let max_x = saturating_sub_u32(viewport.width, target_width);
    let x = if left < max_x { left } else { max_x };
    let top = saturating_sub_u32(center_y, target_height / 2);
    let max_y = saturating_sub_u32(viewport.height, target_height);
    let y = if top < max_y { top } else { max_y };
    PickRegion::rect(x, y, target_width, target_height)
}

/// The region from pixel `(x0, y0)` to pixel `(x1, y1)`, both included; an
/// end before its start gives one pixel, and extents stop at `u32::MAX`.
pub open spec fn spanned_region(x0: u32, y0: u32, x1: u32, y1: u32) -> PickRegion {
    PickRegion {
        x: x0,
        y: y0,
        width: vstd::math::min(vstd::math::max(x1 - x0, 0) + 1, u32::MAX as int) as u32,
        height: vstd::math::min(vstd::math::max(y1 - y0, 0) + 1, u32::MAX as int) as u32,
    }
}

/// The pick region spanned by two corner pixels of a box selection.
pub fn pick_region_spanning(x0: u32, y0: u32, x1: u32, y1: u32) -> (r: PickRegion)
    ensures
        r == spanned_region(x0, y0, x1, y1),
{
    PickRegion::rect(
        x0,
        y0,
        saturating_add_u32(saturating_sub_u32(x1, x0), 1),
        saturating_add_u32(saturating_sub_u32(y1, y0), 1),
    )
}

/// The side of the square that a probe around projected bounds covers at
/// least.
pub const BOUNDS_PROBE_MIN_PIXELS: u32 = 96;

/// The probe region around the pixels that projected bounds cover, from
/// `(x0, y0)` to `(x1, y1)`: that span grown to at least 96 by 96 pixels
/// and kept inside the viewport.
pub fn pick_region_around_span(
    x0: u32,
    y0: u32,
    x1: u32,
    y1: u32,
    viewport: ViewportSize,
) -> (r: PickRegion)
    ensures
        r == expanded_pick_region(
            spanned_region(x0, y0, x1, y1),
            viewport,
            BOUNDS_PROBE_MIN_PIXELS,
            BOUNDS_PROBE_MIN_PIXELS,
        ),
{
    let region = pick_region_spanning(x0, y0, x1, y1);
    expand_pick_region_to_minimum(region, viewport, BOUNDS_PROBE_MIN_PIXELS, BOUNDS_PROBE_MIN_PIXELS)
}

/// Clamping a clamped region changes nothing.
pub proof fn lemma_clamp_pick_region_idempotent(region: PickRegion, viewport: ViewportSize)
    ensures
        clamped_pick_region(region, viewport) matches Some(c) ==> clamped_pick_region(c, viewport)
            == Some(c),
{
}

/// Growing a region that was already grown to the same minimum changes
/// nothing: the grown region is as large as needed and lies inside the
/// viewport.
pub proof fn lemma_expand_pick_region_idempotent(
    region: PickRegion,
    viewport: ViewportSize,
    min_width: u32,
    min_height: u32,
)
    ensures
        ({
            let grown = expanded_pick_region(region, viewport, min_width, min_height);
            expanded_pick_region(grown, viewport, min_width, min_height) == grown
        }),
{
    let grown = expanded_pick_region(region, viewport, min_width, min_height);
    let tw = grown.width as int;
    let th = grown.height as int;
    assert(grown.x as int + tw / 2 - tw / 2 == grown.x as int);
    assert(grown.y as int + th / 2 - th / 2 == grown.y as int);
}

/// Clamping only ever cuts a region down: the clamped region starts where
/// the region starts, is no larger than it, keeps at least one pixel, and
/// ends at the region's end or at the viewport's edge, whichever comes
/// first; a non-empty region inside the viewport comes back unchanged, and
/// nothing comes back exactly when the region is empty or starts outside.
pub proof fn lemma_clamp_only_cuts(region: PickRegion, viewport: ViewportSize)
    ensures
        clamped_pick_region(region, viewport) matches Some(c) ==> {
            &&& c.x == region.x && c.y == region.y
            &&& 1 <= c.width <= region.width && 1 <= c.height <= region.height
            &&& c.x + c.width == vstd::math::min(
                region.x + region.width,
                viewport.clamped_width(),
            )
            &&& c.y + c.height == vstd::math::min(
                region.y + region.height,
                viewport.clamped_height(),
            )
        },
        region.width >= 1 && region.height >= 1 && region.x + region.width
            <= viewport.clamped_width() && region.y + region.height <= viewport.clamped_height()
            ==> clamped_pick_region(region, viewport) == Some(region),
        clamped_pick_region(region, viewport) is None <==> (region.width == 0 || region.height == 0
            || region.x >= viewport.clamped_width() || region.y >= viewport.clamped_height()),
{
}

/// Growing a region keeps it on screen and around its centre: the grown
/// region lies inside the viewport, is at least as large as the region and
/// as the minimum wherever the viewport has room, is no larger than the
/// larger of the two, and, when it is not empty, covers the region's
/// centre pixel wherever that pixel is on screen.
pub proof fn lemma_expand_grows_around_centre(
    region: PickRegion,
    viewport: ViewportSize,
    min_width: u32,
    min_height: u32,
)
    ensures
        ({
            let g = expanded_pick_region(region, viewport, min_width, min_height);
            let vw = viewport.clamped_width();
            let vh = viewport.clamped_height();
            let cx = region.x + region.width / 2;
            let cy = region.y + region.height / 2;
            &&& g.x + g.width <= vw && g.y + g.height <= vh
            &&& g.width >= vstd::math::min(region.width as int, vw) && g.width >= vstd::math::min(
                min_width as int,
                vw,
            )
            &&& g.height >= vstd::math::min(region.height as int, vh) && g.height
                >= vstd::math::min(min_height as int, vh)
            &&& g.width <= vstd::math::max(region.width as int, min_width as int)
            &&& g.height <= vstd::math::max(region.height as int, min_height as int)
            &&& (g.width >= 1 && cx < vw) ==> g.x <= cx < g.x + g.width
            &&& (g.height >= 1 && cy < vh) ==> g.y <= cy < g.y + g.height
        }),
{
}

/// The region spanned by two corner pixels starts at the first corner and
/// reaches the second: its last column is `x1` and its last row `y1` when
/// they lie at or after the start (below the top of the range); an end
/// before its start leaves a single column or row.
pub proof fn lemma_span_reaches_both_corners(x0: u32, y0: u32, x1: u32, y1: u32)
    ensures
        spanned_region(x0, y0, x1, y1).x == x0 && spanned_region(x0, y0, x1, y1).y == y0,
        x0 <= x1 && x1 - x0 < u32::MAX ==> spanned_region(x0, y0, x1, y1).x + spanned_region(
            x0,
            y0,
            x1,
            y1,
        ).width - 1 == x1,
        y0 <= y1 && y1 - y0 < u32::MAX ==> spanned_region(x0, y0, x1, y1).y + spanned_region(
            x0,
            y0,
            x1,
            y1,
        ).height - 1 == y1,
        x1 < x0 ==> spanned_region(x0, y0, x1, y1).width == 1,
        y1 < y0 ==> spanned_region(x0, y0, x1, y1).height == 1,
        spanned_region(x0, y0, x1, y1).width >= 1 && spanned_region(x0, y0, x1, y1).height >= 1,
{
}

} // verus!
