//! Software-drawn RGBA textures for the UI: border frames, rounded panels and
//! overlays. A texture is `width * height` pixels of four bytes each, stored
//! row by row.

use vstd::prelude::*;

verus! {

/// An RGBA8 image: `data` holds four bytes per pixel, row by row.
pub struct TextureData {
    pub width: u32,
    pub height: u32,
    pub data: Vec<u8>,
}

/// The four bytes of pixel `(x, y)` in an image `w` pixels wide.
pub open spec fn texel(data: Seq<u8>, w: int, x: int, y: int) -> Seq<u8> {
    data.subrange(4 * (y * w + x), 4 * (y * w + x) + 4)
}

/// The bytes written for a colour.
pub open spec fn rgba(c: [u8; 4]) -> Seq<u8> {
    seq![c[0], c[1], c[2], c[3]]
}

/// A fully transparent pixel.
pub open spec fn clear_pixel() -> Seq<u8> {
    seq![0u8, 0u8, 0u8, 0u8]
}

/// `data` after writing colour `c` at pixel `(x, y)` of a `width`-wide image,
/// when the pixel's four bytes lie inside `data`; unchanged otherwise.
pub open spec fn with_pixel(data: Seq<u8>, x: int, y: int, width: int, c: [u8; 4]) -> Seq<u8> {
    let idx = (y * width + x) * 4;
    if idx + 3 < data.len() {
        data.update(idx, c[0]).update(idx + 1, c[1]).update(idx + 2, c[2]).update(idx + 3, c[3])
    } else {
        data
    }
}

/// Writes colour `color` at pixel `(x, y)` of a `width`-wide image, if the
/// pixel lies inside `data`.
pub fn set_pixel(data: &mut Vec<u8>, x: u32, y: u32, width: u32, color: [u8; 4])
    requires
        (y * width + x) * 4 <= u32::MAX,
    ensures
        final(data)@ == with_pixel(old(data)@, x as int, y as int, width as int, color),
{
    proof {
        assert(0 <= y * width) by (nonlinear_arith);
    }
    let idx = ((y * width + x) * 4) as usize;
    if data.len() >= 4 && idx < data.len() - 3 {
        data.set(idx, color[0]);
        data.set(idx + 1, color[1]);
        data.set(idx + 2, color[2]);
        data.set(idx + 3, color[3]);
    }
}


/// Distinct pixels of a `w`-wide image have distinct pixel numbers, and
/// pixel numbers follow row-major order.
pub proof fn lemma_pixel_numbers(w: int, x1: int, y1: int, x2: int, y2: int)
    requires
        0 <= x1 < w,
        0 <= x2 < w,
        0 <= y1,
        0 <= y2,
    ensures
        (y1 < y2 || (y1 == y2 && x1 < x2)) ==> y1 * w + x1 < y2 * w + x2,
        (y1 * w + x1 == y2 * w + x2) ==> (x1 == x2 && y1 == y2),
{
    if y1 < y2 {
        assert(y1 * w + w <= y2 * w) by (nonlinear_arith)
            requires
                y1 < y2,
                w > 0,
        ;
    }
    if y2 < y1 {
        assert(y2 * w + w <= y1 * w) by (nonlinear_arith)
            requires
                y2 < y1,
                w > 0,
        ;
    }
}

/// Every pixel of a `w` by `h` image lies inside its `4 * w * h` bytes.
pub proof fn lemma_pixel_in_image(w: int, h: int, x: int, y: int)
    requires
        0 <= x < w,
        0 <= y < h,
    ensures
        0 <= y * w + x,
        (y * w + x) * 4 + 4 <= 4 * w * h,
{
    assert(0 <= y * w) by (nonlinear_arith)
        requires
            0 <= y,
            0 <= w,
    ;
    assert((y + 1) * w <= h * w) by (nonlinear_arith)
        requires
            y + 1 <= h,
            0 <= w,
    ;
    assert(4 * w * h == 4 * (h * w)) by (nonlinear_arith);
    assert((y + 1) * w == y * w + w) by (nonlinear_arith);
    assert((y * w + x) * 4 + 4 <= 4 * (h * w));
}

/// Writing pixel `(x, y)` sets its texel and leaves every other texel.
pub proof fn lemma_texel_after_write(
    data: Seq<u8>,
    w: int,
    h: int,
    x: int,
    y: int,
    c: [u8; 4],
    xx: int,
    yy: int,
)
    requires
        0 <= x < w,
        0 <= y < h,
        0 <= xx < w,
        0 <= yy < h,
        data.len() == 4 * w * h,
    ensures
        texel(with_pixel(data, x, y, w, c), w, xx, yy) == if xx == x && yy == y {
            rgba(c)
        } else {
            texel(data, w, xx, yy)
        },
{
    lemma_pixel_in_image(w, h, x, y);
    lemma_pixel_in_image(w, h, xx, yy);
    lemma_pixel_numbers(w, x, y, xx, yy);
    lemma_pixel_numbers(w, xx, yy, x, y);
    let n = with_pixel(data, x, y, w, c);
    if xx == x && yy == y {
        assert(texel(n, w, xx, yy) =~= rgba(c));
    } else {
        assert(texel(n, w, xx, yy) =~= texel(data, w, xx, yy));
    }
}

/// The smaller of two integers.
pub open spec fn min_int(a: int, b: int) -> int {
    if a <= b {
        a
    } else {
        b
    }
}

/// The corner radius actually used: at most half the width and half the
/// height.
pub open spec fn clamp_radius(w: int, h: int, r: int) -> int {
    min_int(min_int(r, w / 2), h / 2)
}

/// `(dx, dy)` lies within distance `r` of the corner circle's centre.
pub open spec fn within_radius(dx: int, dy: int, r: int) -> bool {
    dx * dx + dy * dy <= r * r
}

/// The absolute value of an integer.
pub open spec fn abs_int(a: int) -> int {
    if a < 0 {
        -a
    } else {
        a
    }
}

/// Pixel `(x, y)` lies in the circle of radius `r` centred at `(cx, cy)`.
pub open spec fn in_circle(x: int, y: int, cx: int, cy: int, r: int) -> bool {
    within_radius(abs_int(x - cx), abs_int(y - cy), r)
}

/// Whether pixel `(x, y)` lies inside a `w` by `h` rectangle anchored at the
/// origin with corners rounded to radius `r0`: it lies in the rectangle,
/// and a pixel in one of the four `r` by `r` corner squares (`r` being the
/// radius clamped to half of each side) lies in that corner's circle,
/// centred `r` pixels in from both edges.
pub open spec fn inside_rounded(x: int, y: int, w: int, h: int, r0: int) -> bool {
    let r = clamp_radius(w, h, r0);
    &&& x < w && y < h
    &&& (x < r && y < r ==> in_circle(x, y, r, r, r))
    &&& (x >= w - r && y < r ==> in_circle(x, y, w - r, r, r))
    &&& (x < r && y >= h - r ==> in_circle(x, y, r, h - r, r))
    &&& (x >= w - r && y >= h - r ==> in_circle(x, y, w - r, h - r, r))
}

/// Whether `dx * dx + dy * dy <= r * r`, for offsets within the radius.
fn within_radius_exec(dx: i32, dy: i32, r: i32) -> (b: bool)
    requires
        0 <= dx <= r,
        0 <= dy <= r,
        r <= 32767,
    ensures
        b == within_radius(dx as int, dy as int, r as int),
{
    assert(dx * dx <= r * r && dy * dy <= r * r && r * r <= 32767 * 32767) by (nonlinear_arith)
        requires
            0 <= dx <= r,
            0 <= dy <= r,
            r <= 32767,
    ;
    dx * dx + dy * dy <= r * r
}

/// Checks whether a point `(x, y)` lies inside a rounded rectangle anchored
/// at `(0, 0)` with the given width, height and corner radius.
pub fn inside_rounded_rect(x: u32, y: u32, w: u32, h: u32, r: u32) -> (b: bool)
    requires
        w <= i32::MAX,
        h <= i32::MAX,
        clamp_radius(w as int, h as int, r as int) <= 32767,
    ensures
        b == inside_rounded(x as int, y as int, w as int, h as int, r as int),
{
    if x >= w || y >= h {
        return false;
    }
    if r == 0 {
        return true;
    }
    let ghost r0 = r;
    let r = r.min(w / 2).min(h / 2);
    assert(r == clamp_radius(w as int, h as int, r0 as int));
    // Top-left corner
    if x < r && y < r {
        let dx = r as i32 - x as i32;
        let dy = r as i32 - y as i32;
        return within_radius_exec(dx, dy, r as i32);
    }
    // Top-right corner
    if x >= w - r && y < r {
        let dx = x as i32 - (w - r) as i32;
        let dy = r as i32 - y as i32;
        return within_radius_exec(dx, dy, r as i32);
    }
    // Bottom-left corner
    if x < r && y >= h - r {
        let dx = r as i32 - x as i32;
        let dy = y as i32 - (h - r) as i32;
        return within_radius_exec(dx, dy, r as i32);
    }
    // Bottom-right corner
    if x >= w - r && y >= h - r {
        let dx = x as i32 - (w - r) as i32;
        let dy = y as i32 - (h - r) as i32;
        return within_radius_exec(dx, dy, r as i32);
    }
    true
}


/// How a texture colours each pixel.
pub enum Shader {
    /// The outer `thickness` pixels of a `size`-square image get `color`; the
    /// interior stays transparent.
    Border { size: u32, thickness: u32, color: [u8; 4] },
    /// A `width` by `height` rounded rectangle with corner radius `radius`:
    /// pixels inside get `fill`, those within `border` pixels of its edge
    /// get `stroke`, those outside stay transparent.
    RoundedRect { width: u32, height: u32, radius: u32, border: u32, fill: [u8; 4], stroke: [u8; 4] },
    /// Every pixel gets `color`.
    Solid { color: [u8; 4] },
}

/// Whether a pixel of the rounded rectangle lies in its border stroke: on
/// the outer `border` pixels, or outside the rectangle inset by `border`.
pub open spec fn in_stroke(x: int, y: int, w: int, h: int, r: int, border: int) -> bool {
    ||| x < border
    ||| y < border
    ||| x >= w - border
    ||| y >= h - border
    ||| !inside_rounded(
        if x >= border { x - border } else { 0 },
        if y >= border { y - border } else { 0 },
        if w >= 2 * border { w - 2 * border } else { 0 },
        if h >= 2 * border { h - 2 * border } else { 0 },
        if r >= border { r - border } else { 0 },
    )
}

/// The colour a shader gives pixel `(x, y)`, or `None` for transparent.
pub open spec fn shade(s: Shader, x: int, y: int) -> Option<[u8; 4]> {
    match s {
        Shader::Border { size, thickness, color } => {
            if x < thickness || y < thickness || x >= size - thickness || y >= size - thickness {
                Some(color)
            } else {
                None
            }
        },
        Shader::RoundedRect { width, height, radius, border, fill, stroke } => {
            let r = clamp_radius(width as int, height as int, radius as int);
            if !inside_rounded(x, y, width as int, height as int, r) {
                None
            } else if border > 0 && in_stroke(x, y, width as int, height as int, r, border as int) {
                Some(stroke)
            } else {
                Some(fill)
            }
        },
        Shader::Solid { color } => Some(color),
    }
}

/// The bytes of pixel `(x, y)` once shaded.
pub open spec fn shaded_texel(s: Shader, x: int, y: int) -> Seq<u8> {
    match shade(s, x, y) {
        Some(c) => rgba(c),
        None => clear_pixel(),
    }
}

/// The shader can be evaluated without overflow: a rounded rectangle fits in
/// `i32` and its corner radius stays below 32768.
pub open spec fn shader_ok(s: Shader) -> bool {
    match s {
        Shader::RoundedRect { width, height, radius, .. } => {
            &&& width <= i32::MAX
            &&& height <= i32::MAX
            &&& clamp_radius(width as int, height as int, radius as int) <= 32767
        },
        _ => true,
    }
}

/// The colour of pixel `(x, y)`.
fn shade_pixel(s: &Shader, x: u32, y: u32) -> (c: Option<[u8; 4]>)
    requires
        shader_ok(*s),
        match *s {
            Shader::Border { size, .. } => x < size,
            _ => true,
        },
    ensures
        c == shade(*s, x as int, y as int),
{
    match s {
        Shader::Border { size, thickness, color } => {
            if x < *thickness || y < *thickness || x >= *size - *thickness || y >= *size
                - *thickness {
                Some(*color)
            } else {
                None
            }
        },
        Shader::RoundedRect { width, height, radius, border, fill, stroke } => {
            let width = *width;
            let height = *height;
            let border = *border;
            let r = (*radius).min(width / 2).min(height / 2);
            proof {
                assert(clamp_radius(width as int, height as int, r as int) == r);
            }
            if !inside_rounded_rect(x, y, width, height, r) {
                return None;
            }
            if border > 0 {
                let stroke_px = x < border || y < border || x >= width - border || y >= height
                    - border || !inside_rounded_rect(
                    x.saturating_sub(border),
                    y.saturating_sub(border),
                    width.saturating_sub(border * 2),
                    height.saturating_sub(border * 2),
                    r.saturating_sub(border),
                );
                if stroke_px {
                    Some(*stroke)
                } else {
                    Some(*fill)
                }
            } else {
                Some(*fill)
            }
        },
        Shader::Solid { color } => Some(*color),
    }
}


/// `data` is a `w` by `h` image whose pixels are shaded by `s`.
pub open spec fn painted(data: Seq<u8>, w: int, h: int, s: Shader) -> bool {
    &&& data.len() == 4 * w * h
    &&& forall|x: int, y: int|
        0 <= x < w && 0 <= y < h ==> #[trigger] texel(data, w, x, y) == shaded_texel(s, x, y)
}

/// Shades every pixel of a `w` by `h` image, row by row.
fn paint(w: u32, h: u32, s: &Shader) -> (data: Vec<u8>)
    requires
        w * h * 4 <= u32::MAX,
        shader_ok(*s),
        match *s {
            Shader::Border { size, .. } => size == w,
            _ => true,
        },
    ensures
        painted(data@, w as int, h as int, *s),
{
    let mut data: Vec<u8> = vec![0u8; (w * h * 4) as usize];
    proof {
        assert(w * h * 4 == 4 * w * h) by (nonlinear_arith);
        assert forall|x: int, y: int| 0 <= x < w && 0 <= y < h implies #[trigger] texel(
            data@,
            w as int,
            x,
            y,
        ) == clear_pixel() by {
            lemma_pixel_in_image(w as int, h as int, x, y);
            assert(texel(data@, w as int, x, y) =~= clear_pixel());
        }
    }
    let mut y: u32 = 0;
    while y < h
        invariant
            y <= h,
            w * h * 4 <= u32::MAX,
            shader_ok(*s),
            match *s {
                Shader::Border { size, .. } => size == w,
                _ => true,
            },
            data@.len() == 4 * w * h,
            forall|xx: int, yy: int|
                0 <= xx < w && 0 <= yy < h ==> #[trigger] texel(data@, w as int, xx, yy) == if yy
                    < y {
                    shaded_texel(*s, xx, yy)
                } else {
                    clear_pixel()
                },
        decreases h - y,
    {
        let mut x: u32 = 0;
        while x < w
            invariant
                x <= w,
                y < h,
                w * h * 4 <= u32::MAX,
                shader_ok(*s),
                match *s {
                    Shader::Border { size, .. } => size == w,
                    _ => true,
                },
                data@.len() == 4 * w * h,
                forall|xx: int, yy: int|
                    0 <= xx < w && 0 <= yy < h ==> #[trigger] texel(data@, w as int, xx, yy) == if yy
                        < y || (yy == y && xx < x) {
                        shaded_texel(*s, xx, yy)
                    } else {
                        clear_pixel()
                    },
            decreases w - x,
        {
            proof {
                lemma_pixel_in_image(w as int, h as int, x as int, y as int);
                assert((y * w + x) * 4 <= u32::MAX) by (nonlinear_arith)
                    requires
                        (y * w + x) * 4 + 4 <= 4 * w * h,
                        w * h * 4 <= u32::MAX,
                ;
            }
            let ghost before = data@;
            match shade_pixel(s, x, y) {
                Some(c) => {
                    set_pixel(&mut data, x, y, w, c);
                    proof {
                        assert forall|xx: int, yy: int|
                            0 <= xx < w && 0 <= yy < h implies #[trigger] texel(
                                data@,
                                w as int,
                                xx,
                                yy,
                            ) == if yy < y || (yy == y && xx < x + 1) {
                                shaded_texel(*s, xx, yy)
                            } else {
                                clear_pixel()
                            } by {
                            lemma_texel_after_write(
                                before,
                                w as int,
                                h as int,
                                x as int,
                                y as int,
                                c,
                                xx,
                                yy,
                            );
                        }
                    }
                },
                None => {},
            }
            x = x + 1;
        }
        y = y + 1;
    }
    data
}

/// Creates a small square border frame image for 9-slice scaling: the outer
/// `thickness` pixels on each edge get `color`, the interior is transparent.
pub fn make_border_texture(size: u32, thickness: u32, color: [u8; 4]) -> (t: TextureData)
    requires
        size * size * 4 <= u32::MAX,
    ensures
        t.width == size && t.height == size,
        painted(t.data@, size as int, size as int, Shader::Border { size, thickness, color }),
{
    let shader = Shader::Border { size, thickness, color };
    TextureData { width: size, height: size, data: paint(size, size, &shader) }
}

/// Draws a rounded rectangle with a solid fill and a border stroke: pixels
/// inside the outer rounded rectangle get `fill`, pixels inside it but
/// outside the shape inset by `border` get `stroke`, everything outside is
/// transparent.
pub fn make_rounded_rect(
    width: u32,
    height: u32,
    radius: u32,
    border: u32,
    fill: [u8; 4],
    stroke: [u8; 4],
) -> (t: TextureData)
    requires
        width * height * 4 <= u32::MAX,
        width <= i32::MAX,
        height <= i32::MAX,
        clamp_radius(width as int, height as int, radius as int) <= 32767,
    ensures
        t.width == width && t.height == height,
        painted(
            t.data@,
            width as int,
            height as int,
            Shader::RoundedRect { width, height, radius, border, fill, stroke },
        ),
{
    let shader = Shader::RoundedRect { width, height, radius, border, fill, stroke };
    TextureData { width, height, data: paint(width, height, &shader) }
}

/// The translucent dark overlay drawn over an ability on cooldown.
pub fn make_cooldown_overlay() -> (t: TextureData)
    ensures
        t.width == 72 && t.height == 66,
        painted(t.data@, 72, 66, Shader::Solid { color: [0, 0, 0, 140] }),
{
    let shader = Shader::Solid { color: [0, 0, 0, 140] };
    TextureData { width: 72, height: 66, data: paint(72, 66, &shader) }
}

/// Dark panel background.
pub fn make_panel_dark() -> (t: TextureData)
    ensures
        t.width == 256 && t.height == 256,
        painted(
            t.data@,
            256,
            256,
            Shader::RoundedRect {
                width: 256,
                height: 256,
                radius: 8,
                border: 2,
                fill: [20, 20, 30, 242],
                stroke: [50, 50, 60, 255],
            },
        ),
{
    make_rounded_rect(256, 256, 8, 2, [20, 20, 30, 242], [50, 50, 60, 255])
}

/// Light panel background.
pub fn make_panel_light() -> (t: TextureData)
    ensures
        t.width == 256 && t.height == 256,
        painted(
            t.data@,
            256,
            256,
            Shader::RoundedRect {
                width: 256,
                height: 256,
                radius: 8,
                border: 2,
                fill: [35, 35, 45, 242],
                stroke: [70, 70, 80, 255],
            },
        ),
{
    make_rounded_rect(256, 256, 8, 2, [35, 35, 45, 242], [70, 70, 80, 255])
}

/// Text-input field background.
pub fn make_panel_input() -> (t: TextureData)
    ensures
        t.width == 256 && t.height == 32,
        painted(
            t.data@,
            256,
            32,
            Shader::RoundedRect {
                width: 256,
                height: 32,
                radius: 4,
                border: 1,
                fill: [15, 15, 20, 242],
                stroke: [40, 40, 50, 255],
            },
        ),
{
    make_rounded_rect(256, 32, 4, 1, [15, 15, 20, 242], [40, 40, 50, 255])
}

/// Ability and inventory slot background.
pub fn make_slot_background() -> (t: TextureData)
    ensures
        t.width == 72 && t.height == 66,
        painted(
            t.data@,
            72,
            66,
            Shader::RoundedRect {
                width: 72,
                height: 66,
                radius: 3,
                border: 1,
                fill: [25, 25, 33, 255],
                stroke: [45, 45, 55, 255],
            },
        ),
{
    make_rounded_rect(72, 66, 3, 1, [25, 25, 33, 255], [45, 45, 55, 255])
}

} // verus!
