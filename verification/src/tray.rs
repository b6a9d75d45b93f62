//! The tray icon that shows the remaining quota as a progress bar: an RGBA
//! image drawn from rounded rectangles.

use vstd::prelude::*;
use vstd::arithmetic::div_mod::lemma_fundamental_div_mod_converse;
use vstd::arithmetic::div_mod::lemma_fundamental_div_mod;
use crate::text::str_eq;

verus! {

/// An RGBA color.
pub type Rgba = (u8, u8, u8, u8);

/// The bar color of a quota tier.
pub open spec fn tier_color(tier: Seq<char>) -> (u8, u8, u8) {
    if tier == "caution"@ {
        (255, 154, 231)
    } else if tier == "critical"@ {
        (255, 111, 181)
    } else if tier == "signed_out"@ || tier == "unavailable"@ || tier == "stale"@ {
        (148, 163, 184)
    } else {
        (255, 120, 242)
    }
}

/// The bar color of a quota tier: pinks that deepen as the quota runs
/// low, grey when no reading is available.
pub fn tray_progress_color(tier: &str) -> (r: (u8, u8, u8))
    ensures
        r == tier_color(tier@),
{
    if str_eq(tier, "caution") {
        (255, 154, 231)
    } else if str_eq(tier, "critical") {
        (255, 111, 181)
    } else if str_eq(tier, "signed_out") || str_eq(tier, "unavailable") || str_eq(tier, "stale") {
        (148, 163, 184)
    } else {
        (255, 120, 242)
    }
}

/// The `c`-th byte of a color.
pub open spec fn component(color: Rgba, c: int) -> u8 {
    if c == 0 {
        color.0
    } else if c == 1 {
        color.1
    } else if c == 2 {
        color.2
    } else {
        color.3
    }
}

/// The first byte of pixel `(x, y)` of a square image `size` pixels wide.
pub open spec fn pixel_offset(size: int, x: int, y: int) -> int {
    (y * size + x) * 4
}

/// The image with pixel `(x, y)` set to `color`; unchanged when the pixel
/// lies outside the `size` by `size` square.
pub open spec fn with_pixel(buf: Seq<u8>, size: int, x: int, y: int, color: Rgba) -> Seq<u8> {
    if x < size && y < size {
        let i = pixel_offset(size, x, y);
        buf.update(i, color.0).update(i + 1, color.1).update(i + 2, color.2).update(i + 3, color.3)
    } else {
        buf
    }
}

/// Sets pixel `(x, y)` of an RGBA image `size` pixels wide to `color`;
/// a pixel outside the `size` by `size` square is ignored.
pub fn set_pixel(rgba: &mut [u8], size: u32, x: u32, y: u32, color: Rgba)
    requires
        x < size && y < size ==> pixel_offset(size as int, x as int, y as int) + 4 <= old(
            rgba,
        )@.len() && pixel_offset(size as int, x as int, y as int) <= u32::MAX,
    ensures
        final(rgba)@ == with_pixel(old(rgba)@, size as int, x as int, y as int, color),
{
    if x >= size || y >= size {
        return;
    }
    let index = ((y * size + x) * 4) as usize;
    rgba[index] = color.0;
    rgba[index + 1] = color.1;
    rgba[index + 2] = color.2;
    rgba[index + 3] = color.3;
}

/// `a - b`, or 0 where that is negative (`u32::saturating_sub`).
pub open spec fn saturating_sub(a: int, b: int) -> int {
    if a >= b {
        a - b
    } else {
        0
    }
}

/// How far `v` lies inside the rounded corner zone of the span `lo..hi`:
/// its distance from the corner circle's center line, 0 outside the zone.
pub open spec fn corner_depth(v: int, lo: int, hi: int, radius: int) -> int {
    if v < lo + radius {
        lo + radius - v
    } else if v >= saturating_sub(hi, radius) {
        v - (hi - radius - 1)
    } else {
        0
    }
}

/// Pixel `(x, y)` lies in the rectangle with corners rounded to `radius`.
pub open spec fn in_rounded_rect(
    x: int,
    y: int,
    left: int,
    top: int,
    width: int,
    height: int,
    radius: int,
) -> bool {
    let dx = corner_depth(x, left, left + width, radius);
    let dy = corner_depth(y, top, top + height, radius);
    &&& left <= x < left + width
    &&& top <= y < top + height
    &&& (dx == 0 || dy == 0 || dx * dx + dy * dy <= radius * radius)
}

/// The image with every pixel of the `size` by `size` square that `inside`
/// selects set to `color`.
pub open spec fn drawn(buf: Seq<u8>, size: int, color: Rgba, inside: spec_fn(int, int) -> bool) -> Seq<
    u8,
> {
    Seq::new(
        buf.len(),
        |k: int|
            {
                let p = k / 4;
                if size > 0 && p / size < size && inside(p % size, p / size) {
                    component(color, k % 4)
                } else {
                    buf[k]
                }
            },
    )
}

/// The image with a rounded rectangle filled in `color`.
pub open spec fn rounded_rect_drawn(
    buf: Seq<u8>,
    size: int,
    left: int,
    top: int,
    width: int,
    height: int,
    radius: int,
    color: Rgba,
) -> Seq<u8> {
    drawn(buf, size, color, |x: int, y: int| in_rounded_rect(x, y, left, top, width, height, radius))
}

/// The pixels of the rounded rectangle that fall in the image have their
/// bytes in the buffer.
pub open spec fn rect_in_buffer(
    len: int,
    size: int,
    left: int,
    top: int,
    width: int,
    height: int,
    radius: int,
) -> bool {
    forall|x: int, y: int|
        #![trigger in_rounded_rect(x, y, left, top, width, height, radius), pixel_offset(size, x, y)]
        in_rounded_rect(x, y, left, top, width, height, radius) && 0 <= x < size && 0 <= y < size
            ==> pixel_offset(size, x, y) + 4 <= len && pixel_offset(size, x, y) <= u32::MAX
}

/// Setting one more pixel extends a drawing by that pixel.
proof fn lemma_draw_pixel(
    buf: Seq<u8>,
    cur: Seq<u8>,
    size: int,
    color: Rgba,
    before: spec_fn(int, int) -> bool,
    after: spec_fn(int, int) -> bool,
    x: int,
    y: int,
)
    requires
        0 <= x,
        0 <= y,
        size > 0,
        cur == drawn(buf, size, color, before),
        x < size && y < size ==> pixel_offset(size, x, y) + 4 <= buf.len(),
        forall|px: int, py: int| #[trigger] after(px, py) == (before(px, py) || (px == x && py == y)),
    ensures
        with_pixel(cur, size, x, y, color) == drawn(buf, size, color, after),
{
    let next = drawn(buf, size, color, after);
    let w = with_pixel(cur, size, x, y, color);
    assert forall|k: int| 0 <= k < buf.len() implies #[trigger] w[k] == next[k] by {
        let p = k / 4;
        lemma_fundamental_div_mod(k, 4);
        lemma_fundamental_div_mod(p, size);
        if x < size && y < size {
            let i = pixel_offset(size, x, y);
            if i <= k < i + 4 {
                lemma_fundamental_div_mod_converse(k, 4, y * size + x, k - i);
                lemma_fundamental_div_mod_converse(y * size + x, size, y, x);
            } else {
                if p % size == x && p / size == y {
                    assert(p == y * size + x) by (nonlinear_arith)
                        requires
                            p == size * (p / size) + p % size,
                            p % size == x,
                            p / size == y,
                    ;
                    assert(false);
                }
            }
        }
    }
    assert(w =~= next);
}

/// Selecting the same pixels draws the same image.
proof fn lemma_drawn_same(
    buf: Seq<u8>,
    size: int,
    color: Rgba,
    a: spec_fn(int, int) -> bool,
    b: spec_fn(int, int) -> bool,
)
    requires
        forall|px: int, py: int| 0 <= px < size && 0 <= py < size ==> #[trigger] a(px, py) == b(
            px,
            py,
        ),
    ensures
        drawn(buf, size, color, a) == drawn(buf, size, color, b),
{
    assert forall|k: int| 0 <= k < buf.len() implies #[trigger] drawn(buf, size, color, a)[k]
        == drawn(buf, size, color, b)[k] by {
        let p = k / 4;
        if size > 0 {
            lemma_fundamental_div_mod(p, size);
            assert(0 <= p % size < size);
            if p / size < size && k >= 0 {
                assert(p >= 0);
                assert(p / size >= 0) by (nonlinear_arith)
                    requires
                        p >= 0,
                        size > 0,
                ;
                assert(a(p % size, p / size) == b(p % size, p / size));
            }
        }
    }
    assert(drawn(buf, size, color, a) =~= drawn(buf, size, color, b));
}

/// Drawing a rounded rectangle changes only its own pixels, each to the
/// color: a pixel of the image outside the rectangle keeps its bytes; one
/// inside it away from the corners (between the corner rows or between the
/// corner columns), or any inside it when the radius is 0, takes the color;
/// a corner pixel takes it when it lies within the corner's circle.
pub proof fn lemma_rounded_rect_pixels(
    buf: Seq<u8>,
    size: int,
    left: int,
    top: int,
    width: int,
    height: int,
    radius: int,
    color: Rgba,
    x: int,
    y: int,
    c: int,
)
    requires
        0 <= x < size,
        0 <= y < size,
        0 <= c < 4,
        0 <= left,
        0 <= top,
        0 <= radius,
        pixel_offset(size, x, y) + 4 <= buf.len(),
    ensures
        ({
            let after = rounded_rect_drawn(buf, size, left, top, width, height, radius, color);
            let k = pixel_offset(size, x, y) + c;
            let inside = left <= x < left + width && top <= y < top + height;
            &&& after.len() == buf.len()
            &&& after[k] == if in_rounded_rect(x, y, left, top, width, height, radius) {
                component(color, c)
            } else {
                buf[k]
            }
            &&& !inside ==> after[k] == buf[k]
            &&& inside && (left + radius <= x < left + width - radius || top + radius <= y < top
                + height - radius || radius == 0) ==> after[k] == component(color, c)
        }),
{
    let k = pixel_offset(size, x, y) + c;
    let p = y * size + x;
    lemma_fundamental_div_mod_converse(k, 4, p, c);
    lemma_fundamental_div_mod_converse(p, size, y, x);
}

/// The pixels drawn so far: rows above `row`, and in `row` the columns
/// left of `col`.
pub open spec fn drawn_so_far(
    left: int,
    top: int,
    width: int,
    height: int,
    radius: int,
    row: int,
    col: int,
) -> spec_fn(int, int) -> bool {
    |px: int, py: int|
        in_rounded_rect(px, py, left, top, width, height, radius) && (py < row || (py == row && px
            < col))
}

/// Fills a rectangle of an RGBA image `size` pixels wide with `color`,
/// leaving its corners rounded to `radius`; pixels outside the `size` by
/// `size` square are ignored.
pub fn draw_rounded_rect(
    rgba: &mut [u8],
    size: u32,
    left: u32,
    top: u32,
    width: u32,
    height: u32,
    radius: i32,
    color: Rgba,
)
    requires
        left + width <= u32::MAX,
        top + height <= u32::MAX,
        width > 0 && height > 0 ==> 0 <= radius && 2 * radius * radius <= i32::MAX && left + radius
            <= u32::MAX && top + radius <= u32::MAX,
        rect_in_buffer(
            old(rgba)@.len() as int,
            size as int,
            left as int,
            top as int,
            width as int,
            height as int,
            radius as int,
        ),
    ensures
        final(rgba)@ == rounded_rect_drawn(
            old(rgba)@,
            size as int,
            left as int,
            top as int,
            width as int,
            height as int,
            radius as int,
            color,
        ),
{
    let ghost buf = rgba@;
    let ghost (l, t, w, h, r) = (left as int, top as int, width as int, height as int, radius as int);
    let right = left + width;
    let bottom = top + height;
    if size == 0 || width == 0 || height == 0 {
        proof {
            lemma_drawn_same(
                buf,
                size as int,
                color,
                |x: int, y: int| in_rounded_rect(x, y, l, t, w, h, r),
                |x: int, y: int| false,
            );
            assert(drawn(buf, size as int, color, |x: int, y: int| false) =~= buf);
        }
        return;
    }
    let ghost rad = radius as u32;
    let mut y = top;
    proof {
        lemma_drawn_same(buf, size as int, color, drawn_so_far(l, t, w, h, r, t, l), |x: int, y: int| false);
        assert(drawn(buf, size as int, color, |x: int, y: int| false) =~= buf);
    }
    while y < bottom
        invariant
            buf == old(rgba)@,
            rgba@.len() == buf.len(),
            (l, t, w, h, r) == (left as int, top as int, width as int, height as int, radius as int),
            right == left + width,
            bottom == top + height,
            size > 0,
            width > 0,
            height > 0,
            0 <= radius,
            2 * radius * radius <= i32::MAX,
            left + radius <= u32::MAX,
            top + radius <= u32::MAX,
            top <= y <= bottom,
            rect_in_buffer(buf.len() as int, size as int, l, t, w, h, r),
            rgba@ == drawn(buf, size as int, color, drawn_so_far(l, t, w, h, r, y as int, l)),
        decreases bottom - y,
    {
        let mut x = left;
        while x < right
            invariant
                buf == old(rgba)@,
                rgba@.len() == buf.len(),
                (l, t, w, h, r) == (left as int, top as int, width as int, height as int, radius as int),
                right == left + width,
                bottom == top + height,
                size > 0,
                width > 0,
                height > 0,
                0 <= radius,
                2 * radius * radius <= i32::MAX,
                left + radius <= u32::MAX,
                top + radius <= u32::MAX,
                top <= y < bottom,
                left <= x <= right,
                rect_in_buffer(buf.len() as int, size as int, l, t, w, h, r),
                rgba@ == drawn(buf, size as int, color, drawn_so_far(l, t, w, h, r, y as int, x as int)),
            decreases right - x,
        {
            let rad = radius as u32;
            let dx = if x < left + rad {
                left + rad - x
            } else if x >= right.saturating_sub(rad) {
                x - (right - rad - 1)
            } else {
                0
            } as i32;
            let dy = if y < top + rad {
                top + rad - y
            } else if y >= bottom.saturating_sub(rad) {
                y - (bottom - rad - 1)
            } else {
                0
            } as i32;
            assert(dx == corner_depth(x as int, l, l + w, r));
            assert(dy == corner_depth(y as int, t, t + h, r));
            assert(0 <= dx <= radius);
            assert(0 <= dy <= radius);
            let inside = if dx == 0 || dy == 0 {
                true
            } else {
                assert(dx * dx <= radius * radius) by (nonlinear_arith)
                    requires
                        0 <= dx <= radius,
                ;
                assert(dy * dy <= radius * radius) by (nonlinear_arith)
                    requires
                        0 <= dy <= radius,
                ;
                assert(2 * radius * radius == 2 * (radius * radius)) by (nonlinear_arith);
                assert(dx * dx >= 0 && dy * dy >= 0) by (nonlinear_arith);
                dx * dx + dy * dy <= radius * radius
            };
            assert(inside == in_rounded_rect(x as int, y as int, l, t, w, h, r));
            let ghost before = drawn_so_far(l, t, w, h, r, y as int, x as int);
            let ghost after = drawn_so_far(l, t, w, h, r, y as int, x + 1);
            if inside {
                proof {
                    if x < size && y < size {
                        assert(in_rounded_rect(x as int, y as int, l, t, w, h, r));
                        assert(pixel_offset(size as int, x as int, y as int) + 4 <= buf.len());
                    }
                    lemma_draw_pixel(buf, rgba@, size as int, color, before, after, x as int, y as int);
                }
                set_pixel(rgba, size, x, y, color);
            } else {
                proof {
                    lemma_drawn_same(buf, size as int, color, before, after);
                }
            }
            x = x + 1;
        }
        proof {
            lemma_drawn_same(
                buf,
                size as int,
                color,
                drawn_so_far(l, t, w, h, r, y as int, right as int),
                drawn_so_far(l, t, w, h, r, y + 1, l),
            );
        }
        y = y + 1;
    }
    proof {
        lemma_drawn_same(
            buf,
            size as int,
            color,
            drawn_so_far(l, t, w, h, r, bottom as int, l),
            |x: int, y: int| in_rounded_rect(x, y, l, t, w, h, r),
        );
    }
}

/// The tray icon's width and height in pixels. Pixels are addressed with
/// rows `ICON_WIDTH` pixels long.
pub const ICON_WIDTH: u32 = 42;

pub const ICON_HEIGHT: u32 = 32;

/// A transparent icon.
pub open spec fn blank_icon() -> Seq<u8> {
    Seq::new((ICON_WIDTH * ICON_HEIGHT * 4) as nat, |i: int| 0u8)
}

/// The progress icon: a light rim, a dark track, its inner shade and a
/// highlight line; then, when `fill_width` is positive, the bar in `bar`
/// color with its gloss and its shadow.
pub open spec fn progress_icon(fill_width: int, bar: (u8, u8, u8)) -> Seq<u8> {
    let w = ICON_WIDTH as int;
    let rim = rounded_rect_drawn(blank_icon(), w, 0, 9, 42, 13, 6, (255, 255, 255, 135));
    let track = rounded_rect_drawn(rim, w, 1, 10, 40, 11, 5, (18, 24, 40, 238));
    let shade = rounded_rect_drawn(track, w, 2, 11, 38, 9, 4, (74, 82, 102, 172));
    let line = rounded_rect_drawn(shade, w, 2, 11, 38, 1, 1, (255, 255, 255, 90));
    if fill_width > 0 {
        let fill = rounded_rect_drawn(line, w, 1, 10, fill_width, 11, 5, (bar.0, bar.1, bar.2, 255));
        let gloss = rounded_rect_drawn(
            fill,
            w,
            2,
            11,
            saturating_sub(fill_width, 2),
            3,
            2,
            (255, 255, 255, 112),
        );
        rounded_rect_drawn(gloss, w, 2, 18, saturating_sub(fill_width, 2), 2, 1, (0, 0, 0, 38))
    } else {
        line
    }
}

/// A rounded rectangle within the icon's first 22 rows lies in its buffer.
proof fn lemma_icon_rect(left: int, top: int, width: int, height: int, radius: int)
    requires
        top + height <= 22,
    ensures
        rect_in_buffer(
            (ICON_WIDTH * ICON_HEIGHT * 4) as int,
            ICON_WIDTH as int,
            left,
            top,
            width,
            height,
            radius,
        ),
{
    assert forall|x: int, y: int|
        #![trigger in_rounded_rect(x, y, left, top, width, height, radius), pixel_offset(42, x, y)]
        in_rounded_rect(x, y, left, top, width, height, radius) && 0 <= x < 42 && 0 <= y < 42
            implies pixel_offset(42, x, y) + 4 <= 5376 && pixel_offset(42, x, y) <= u32::MAX by {
        assert(y < 22);
    }
}

/// The RGBA pixels of the tray progress icon, `ICON_WIDTH` by
/// `ICON_HEIGHT`, with a bar `fill_width` pixels long in the tier's color.
pub fn tray_progress_pixels(fill_width: u32, tier: &str) -> (r: Vec<u8>)
    requires
        fill_width <= u32::MAX - 2,
    ensures
        r@ == progress_icon(fill_width as int, tier_color(tier@)),
{
    let (red, green, blue) = tray_progress_color(tier);
    let mut rgba: Vec<u8> = vec![0u8; 5376];
    assert(rgba@ =~= blank_icon());
    proof {
        lemma_icon_rect(0, 9, 42, 13, 6);
        lemma_icon_rect(1, 10, 40, 11, 5);
        lemma_icon_rect(2, 11, 38, 9, 4);
        lemma_icon_rect(2, 11, 38, 1, 1);
        lemma_icon_rect(1, 10, fill_width as int, 11, 5);
        lemma_icon_rect(2, 11, saturating_sub(fill_width as int, 2), 3, 2);
        lemma_icon_rect(2, 18, saturating_sub(fill_width as int, 2), 2, 1);
    }
    draw_rounded_rect(rgba.as_mut_slice(), ICON_WIDTH, 0, 9, 42, 13, 6, (255, 255, 255, 135));
    draw_rounded_rect(rgba.as_mut_slice(), ICON_WIDTH, 1, 10, 40, 11, 5, (18, 24, 40, 238));
    draw_rounded_rect(rgba.as_mut_slice(), ICON_WIDTH, 2, 11, 38, 9, 4, (74, 82, 102, 172));
    draw_rounded_rect(rgba.as_mut_slice(), ICON_WIDTH, 2, 11, 38, 1, 1, (255, 255, 255, 90));
    if fill_width > 0 {
        draw_rounded_rect(rgba.as_mut_slice(), ICON_WIDTH, 1, 10, fill_width, 11, 5, (red, green, blue, 255));
        draw_rounded_rect(
            rgba.as_mut_slice(),
            ICON_WIDTH,
            2,
            11,
            fill_width.saturating_sub(2),
            3,
            2,
            (255, 255, 255, 112),
        );
        draw_rounded_rect(
            rgba.as_mut_slice(),
            ICON_WIDTH,
            2,
            18,
            fill_width.saturating_sub(2),
            2,
            1,
            (0, 0, 0, 38),
        );
    }
    rgba
}

} // verus!
