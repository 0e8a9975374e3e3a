//! Image sizes the providers accept: the size asked of DashScope and OpenAI
//! for a wanted size, the smallest input DashScope takes, and scaling a
//! generated image back to the wanted size.
use vstd::prelude::*;
use crate::ai_reply::ImageSize;
use crate::codec::{decode_rgba8, decoded_rgba8, encode_png, image_error_text, png_encoding};
use crate::image_ops::PixelImage;
use crate::text::{append_str, decimal, join_message, push_decimal, starts_with};

verus! {

/// DashScope generates at least this many pixels.
pub const DASHSCOPE_MIN_PIXELS: u64 = 589824;

/// DashScope generates at most this many pixels.
pub const DASHSCOPE_MAX_PIXELS: u64 = 16777216;

/// OpenAI is asked for at least 1024 by 1024 pixels.
pub const OPENAI_MIN_PIXELS: u64 = 1048576;

/// DashScope takes input images of at least this many pixels on each side.
pub const DASHSCOPE_MIN_INPUT_SIDE: u32 = 240;

/// `s` is the least whole factor from 1 up with `s * s * a >= b`.
pub open spec fn is_min_scale(s: int, a: int, b: int) -> bool {
    &&& s >= 1
    &&& s * s * a >= b
    &&& (s == 1 || (s - 1) * (s - 1) * a < b)
}

/// The least whole factor `s >= 1` with `s * s * a >= b`: the ceiling of
/// the square root of `b / a`, at least 1.
pub open spec fn min_scale(a: int, b: int) -> int {
    choose|s: int| is_min_scale(s, a, b)
}

proof fn lemma_min_scale_unique(s: int, a: int, b: int)
    requires
        is_min_scale(s, a, b),
        a >= 0,
    ensures
        min_scale(a, b) == s,
{
    assert(exists|x: int| is_min_scale(x, a, b));
    let t = min_scale(a, b);
    assert(is_min_scale(t, a, b));
    if t < s {
        assert((s - 1) * (s - 1) * a >= t * t * a) by (nonlinear_arith)
            requires
                1 <= t <= s - 1,
                a >= 0,
        ;
    } else if s < t {
        assert((t - 1) * (t - 1) * a >= s * s * a) by (nonlinear_arith)
            requires
                1 <= s <= t - 1,
                a >= 0,
        ;
    }
}

/// The least factor `s` from 1 up with `s * s * a >= b`, searched below `hi`.
fn smallest_scale(a: u64, b: u64, hi: u64) -> (r: u64)
    requires
        1 <= hi <= 0x10_0000,
        hi * hi * a >= b,
    ensures
        is_min_scale(r as int, a as int, b as int),
        r == min_scale(a as int, b as int),
        1 <= r <= hi,
{
    let mut lo: u64 = 0;
    let mut h: u64 = hi;
    while h - lo > 1
        invariant
            lo < h <= hi,
            hi <= 0x10_0000,
            h * h * a >= b,
            lo == 0 || lo * lo * a < b,
        decreases h - lo,
    {
        let mid = lo + (h - lo) / 2;
        let m = mid as u128;
        assert(m * m <= 0x100_0000_0000) by (nonlinear_arith)
            requires
                m <= 0x10_0000,
        ;
        assert(m * m * a <= 0x100_0000_0000 * 0xffff_ffff_ffff_ffff) by (nonlinear_arith)
            requires
                m * m <= 0x100_0000_0000,
                a <= 0xffff_ffff_ffff_ffff,
        ;
        let v: u128 = m * m * (a as u128);
        if v >= b as u128 {
            h = mid;
        } else {
            lo = mid;
        }
    }
    proof {
        lemma_min_scale_unique(h as int, a as int, b as int);
    }
    h
}

proof fn lemma_mul_u32(a: int, b: int)
    by (nonlinear_arith)
    requires
        0 <= a <= 0xffff_ffff,
        0 <= b <= 0xffff_ffff,
    ensures
        0 <= a * b <= 0xffff_ffff * 0xffff_ffff,
        a >= 1 && b >= 1 ==> a * b >= 1,
        a * b >= 1 ==> a >= 1 && b >= 1,
{
}

/// `w` and `h` as `"{w}{sep}{h}"`.
pub open spec fn size_text(w: int, h: int, sep: Seq<char>) -> Seq<char> {
    decimal(w as nat) + sep + decimal(h as nat)
}

fn size_string(w: u32, h: u32, sep: &str) -> (r: String)
    ensures
        r@ == size_text(w as int, h as int, sep@),
{
    let mut s = String::new();
    push_decimal(&mut s, w as u64);
    append_str(&mut s, sep);
    push_decimal(&mut s, h as u64);
    assert(Seq::<char>::empty() + decimal(w as nat) =~= decimal(w as nat));
    s
}

/// The size DashScope is asked for: scaled up by the least whole factor that
/// reaches the pixel minimum, or divided by the least whole factor that gets
/// under the maximum.
pub open spec fn dashscope_dims(w: int, h: int) -> (int, int) {
    let p = w * h;
    if p < DASHSCOPE_MIN_PIXELS {
        let s = min_scale(p, DASHSCOPE_MIN_PIXELS as int);
        (w * s, h * s)
    } else if p > DASHSCOPE_MAX_PIXELS {
        let s = min_scale(DASHSCOPE_MAX_PIXELS as int, p);
        (w / s, h / s)
    } else {
        (w, h)
    }
}

/// The `size` parameter of a DashScope request (`"{w}*{h}"`) for the wanted
/// size, and whether the image then has to be scaled to the wanted size.
pub fn dashscope_gen_size(size: ImageSize) -> (r: (String, bool))
    requires
        size.width > 0,
        size.height > 0,
    ensures
        ({
            let d = dashscope_dims(size.width as int, size.height as int);
            &&& r.0@ == size_text(d.0, d.1, "*"@)
            &&& r.1 == (d.0 != size.width || d.1 != size.height)
        }),
{
    let w = size.width;
    let h = size.height;
    proof {
        lemma_mul_u32(w as int, h as int);
    }
    let pixels: u64 = w as u64 * h as u64;
    let (gw, gh): (u32, u32) = if pixels < DASHSCOPE_MIN_PIXELS {
        assert(768 * 768 * pixels >= DASHSCOPE_MIN_PIXELS) by (nonlinear_arith)
            requires
                pixels >= 1,
        ;
        let s = smallest_scale(pixels, DASHSCOPE_MIN_PIXELS, 768);
        assert(w * s <= 0xffff_ffff && h * s <= 0xffff_ffff) by (nonlinear_arith)
            requires
                s <= 768,
                w * h < 589824,
                w >= 1,
                h >= 1,
        ;
        (w * s as u32, h * s as u32)
    } else if pixels > DASHSCOPE_MAX_PIXELS {
        assert(0x10_0000 * 0x10_0000 * DASHSCOPE_MAX_PIXELS >= pixels) by (nonlinear_arith)
            requires
                pixels <= 0xffff_ffff * 0xffff_ffff,
        ;
        let s = smallest_scale(DASHSCOPE_MAX_PIXELS, pixels, 0x10_0000);
        (w / s as u32, h / s as u32)
    } else {
        (w, h)
    };
    (size_string(gw, gh, "*"), gw != w || gh != h)
}

/// The size OpenAI is asked for: the shorter side raised so that the sides
/// are at most three to one, then scaled up by the least whole factor that
/// reaches the pixel minimum.
pub open spec fn openai_dims(w: int, h: int) -> (int, int) {
    let (w1, h1) = if w > 3 * h {
        (w, (w + 2) / 3)
    } else if 3 * w < h {
        ((h + 2) / 3, h)
    } else {
        (w, h)
    };
    let p = w1 * h1;
    if 0 < p < OPENAI_MIN_PIXELS {
        let s = min_scale(p, OPENAI_MIN_PIXELS as int);
        (w1 * s, h1 * s)
    } else {
        (w1, h1)
    }
}

fn ceil_third(n: u32) -> (r: u32)
    ensures
        r == (n + 2) / 3,
{
    n / 3 + if n % 3 == 0 {
        0
    } else {
        1
    }
}

/// The `size` parameter of an OpenAI request (`"{w}x{h}"`) for the wanted
/// size, and whether the image then has to be scaled to the wanted size.
pub fn openai_gen_size(size: ImageSize) -> (r: (String, bool))
    ensures
        ({
            let d = openai_dims(size.width as int, size.height as int);
            &&& r.0@ == size_text(d.0, d.1, "x"@)
            &&& r.1 == (d.0 != size.width || d.1 != size.height)
        }),
{
    let w = size.width;
    let h = size.height;
    let (w1, h1): (u32, u32) = if w as u64 > 3 * h as u64 {
        (w, ceil_third(w))
    } else if 3 * (w as u64) < h as u64 {
        (ceil_third(h), h)
    } else {
        (w, h)
    };
    proof {
        lemma_mul_u32(w1 as int, h1 as int);
    }
    let pixels: u64 = w1 as u64 * h1 as u64;
    let (gw, gh): (u32, u32) = if 0 < pixels && pixels < OPENAI_MIN_PIXELS {
        assert(1024 * 1024 * pixels >= OPENAI_MIN_PIXELS) by (nonlinear_arith)
            requires
                pixels >= 1,
        ;
        let s = smallest_scale(pixels, OPENAI_MIN_PIXELS, 1024);
        assert(w1 * s <= 0xffff_ffff && h1 * s <= 0xffff_ffff) by (nonlinear_arith)
            requires
                s <= 1024,
                w1 * h1 < 1048576,
                w1 >= 1,
                h1 >= 1,
        ;
        (w1 * s as u32, h1 * s as u32)
    } else {
        (w1, h1)
    };
    (size_string(gw, gh, "x"), gw != w || gh != h)
}

/// The factor an input image is scaled up by for DashScope: the least whole
/// factor that brings each side below the minimum up to it (1 for a side
/// that already reaches it).
pub open spec fn input_upscale(w: int, h: int) -> int {
    let m = DASHSCOPE_MIN_INPUT_SIDE as int;
    let sw = if w < m {
        (m + w - 1) / w
    } else {
        1
    };
    let sh = if h < m {
        (m + h - 1) / h
    } else {
        1
    };
    if sw >= sh {
        sw
    } else {
        sh
    }
}

proof fn lemma_min_scale_exists(a: int, b: int, hi: int)
    requires
        a >= 0,
        hi >= 1,
        hi * hi * a >= b,
    ensures
        is_min_scale(min_scale(a, b), a, b),
        min_scale(a, b) <= hi,
    decreases hi,
{
    if hi == 1 || (hi - 1) * (hi - 1) * a < b {
        lemma_min_scale_unique(hi, a, b);
    } else {
        lemma_min_scale_exists(a, b, hi - 1);
    }
}

/// OpenAI's limits hold of the size it is asked for: the sides are at most
/// three to one, and there are at least 1024 by 1024 pixels (for any wanted
/// size that is not empty).
pub proof fn openai_size_in_limits(w: u32, h: u32)
    requires
        w > 0 || h > 0,
    ensures
        ({
            let d = openai_dims(w as int, h as int);
            &&& d.0 <= 3 * d.1
            &&& d.1 <= 3 * d.0
            &&& d.0 * d.1 >= OPENAI_MIN_PIXELS
        }),
{
    let (w, h) = (w as int, h as int);
    let (w1, h1) = if w > 3 * h {
        (w, (w + 2) / 3)
    } else if 3 * w < h {
        ((h + 2) / 3, h)
    } else {
        (w, h)
    };
    assert(1 <= w1 <= 3 * h1 && 1 <= h1 <= 3 * w1);
    let p = w1 * h1;
    assert(p >= 1) by (nonlinear_arith)
        requires
            w1 >= 1,
            h1 >= 1,
            p == w1 * h1,
    ;
    if p < OPENAI_MIN_PIXELS {
        assert(1024 * 1024 * p >= OPENAI_MIN_PIXELS) by (nonlinear_arith)
            requires
                p >= 1,
        ;
        lemma_min_scale_exists(p, OPENAI_MIN_PIXELS as int, 1024);
        let s = min_scale(p, OPENAI_MIN_PIXELS as int);
        assert(w1 * s <= 3 * (h1 * s) && h1 * s <= 3 * (w1 * s) && (w1 * s) * (h1 * s)
            >= OPENAI_MIN_PIXELS) by (nonlinear_arith)
            requires
                s >= 1,
                w1 <= 3 * h1,
                h1 <= 3 * w1,
                s * s * p >= OPENAI_MIN_PIXELS,
                p == w1 * h1,
        ;
    }
}

/// DashScope's pixel limits hold of the size it is asked for: a wanted size
/// below the minimum is scaled up to reach it, one above the maximum is
/// scaled down to stay within it, and one within the limits is asked as it is.
pub proof fn dashscope_size_in_limits(w: u32, h: u32)
    requires
        w > 0,
        h > 0,
    ensures
        ({
            let d = dashscope_dims(w as int, h as int);
            let p = w * h;
            &&& p < DASHSCOPE_MIN_PIXELS ==> d.0 * d.1 >= DASHSCOPE_MIN_PIXELS
            &&& p > DASHSCOPE_MAX_PIXELS ==> d.0 * d.1 <= DASHSCOPE_MAX_PIXELS
            &&& DASHSCOPE_MIN_PIXELS <= p <= DASHSCOPE_MAX_PIXELS ==> d == (w as int, h as int)
        }),
{
    let (w, h) = (w as int, h as int);
    let p = w * h;
    assert(1 <= p <= 0xffff_ffff * 0xffff_ffff) by (nonlinear_arith)
        requires
            1 <= w <= 0xffff_ffff,
            1 <= h <= 0xffff_ffff,
            p == w * h,
    ;
    if p < DASHSCOPE_MIN_PIXELS {
        assert(768 * 768 * p >= DASHSCOPE_MIN_PIXELS) by (nonlinear_arith)
            requires
                p >= 1,
        ;
        lemma_min_scale_exists(p, DASHSCOPE_MIN_PIXELS as int, 768);
        let s = min_scale(p, DASHSCOPE_MIN_PIXELS as int);
        assert((w * s) * (h * s) >= DASHSCOPE_MIN_PIXELS) by (nonlinear_arith)
            requires
                s * s * p >= DASHSCOPE_MIN_PIXELS,
                p == w * h,
        ;
    } else if p > DASHSCOPE_MAX_PIXELS {
        assert(0x10_0000 * 0x10_0000 * DASHSCOPE_MAX_PIXELS >= p) by (nonlinear_arith)
            requires
                p <= 0xffff_ffff * 0xffff_ffff,
        ;
        lemma_min_scale_exists(DASHSCOPE_MAX_PIXELS as int, p, 0x10_0000);
        let s = min_scale(DASHSCOPE_MAX_PIXELS as int, p);
        let (a, b) = (w / s, h / s);
        assert(a * s <= w && b * s <= h && a >= 0 && b >= 0) by (nonlinear_arith)
            requires
                s >= 1,
                w >= 0,
                h >= 0,
                a == w / s,
                b == h / s,
        ;
        assert(a * b <= DASHSCOPE_MAX_PIXELS) by (nonlinear_arith)
            requires
                s >= 1,
                a >= 0,
                b >= 0,
                a * s <= w,
                b * s <= h,
                w * h == p,
                s * s * DASHSCOPE_MAX_PIXELS >= p,
        ;
    }
}

/// An input image scaled up for DashScope reaches the minimum on both sides.
pub proof fn upscaled_input_reaches_minimum(w: u32, h: u32)
    requires
        w > 0,
        h > 0,
    ensures
        w * input_upscale(w as int, h as int) >= DASHSCOPE_MIN_INPUT_SIDE,
        h * input_upscale(w as int, h as int) >= DASHSCOPE_MIN_INPUT_SIDE,
{
    let (w, h) = (w as int, h as int);
    let m = DASHSCOPE_MIN_INPUT_SIDE as int;
    let sw = if w < m { (m + w - 1) / w } else { 1 };
    let sh = if h < m { (m + h - 1) / h } else { 1 };
    assert(w * sw >= m && sw >= 1) by (nonlinear_arith)
        requires
            w >= 1,
            m == 240,
            sw == (if w < m { (m + w - 1) / w } else { 1 }),
    ;
    assert(h * sh >= m && sh >= 1) by (nonlinear_arith)
        requires
            h >= 1,
            m == 240,
            sh == (if h < m { (m + h - 1) / h } else { 1 }),
    ;
    let s = input_upscale(w, h);
    assert(s >= sw && s >= sh);
    assert(w * s >= m && h * s >= m) by (nonlinear_arith)
        requires
            w >= 1,
            h >= 1,
            s >= sw,
            s >= sh,
            w * sw >= m,
            h * sh >= m,
    ;
}

/// `image::imageops::resize` with `FilterType::Lanczos3`. It returns a new
/// buffer of exactly the new size (`ImageBuffer::new`, which panics when
/// that buffer's length does not fit in `usize`). The scaled pixels are not
/// stated: the Lanczos kernel goes through `f32::sin`, whose results std
/// leaves free to differ between platforms and calls.
#[verifier::external_body]
fn resize_lanczos3(img: &PixelImage, new_width: u32, new_height: u32) -> (r: PixelImage)
    requires
        img.wf(),
        new_width as int * new_height as int * 4 <= usize::MAX,
    ensures
        r.wf(),
        r.width == new_width,
        r.height == new_height,
{
    let buffer = image::RgbaImage::from_raw(img.width, img.height, img.data.clone()).unwrap();
    let out = image::imageops::resize(&buffer, new_width, new_height, image::imageops::FilterType::Lanczos3);
    PixelImage { width: new_width, height: new_height, data: out.into_raw() }
}

/// `bytes` is the PNG of some RGBA image of `width` by `height` pixels.
pub open spec fn is_png_of_size(bytes: Seq<u8>, width: u32, height: u32) -> bool {
    exists|pixels: Seq<u8>|
        pixels.len() == width * height * 4 && #[trigger] png_encoding(width, height, pixels)
            == Some(bytes)
}

/// Write a scaled image as PNG. An encoder failure is reported after
/// `prefix`.
pub fn encode_scaled_png(img: &PixelImage, prefix: &str) -> (r: Result<Vec<u8>, String>)
    requires
        img.wf(),
    ensures
        match png_encoding(img.width, img.height, img.data@) {
            Some(png) => r matches Ok(v) && v@ == png,
            None => r matches Err(e) && starts_with(e@, prefix@),
        },
        r matches Ok(v) ==> is_png_of_size(v@, img.width, img.height),
{
    match encode_png(img) {
        Ok(png) => Ok(png),
        Err(e) => {
            let detail = image_error_text(&e);
            let msg = join_message(prefix, detail.as_str());
            proof {
                crate::text::lemma_starts_with_concat(prefix@, detail@);
            }
            Err(msg)
        },
    }
}

/// Bring an input image up to DashScope's minimum side: an image whose sides
/// both reach it is sent as it is; a smaller one is scaled up by
/// `input_upscale` (Lanczos3) and sent as PNG. An image with no pixels is
/// sent as it is, and one whose scaled size does not fit in memory is
/// refused.
pub fn ensure_dashscope_min_input(image_data: &[u8]) -> (r: Result<Vec<u8>, String>)
    ensures
        match decoded_rgba8(image_data@) {
            None => r matches Err(e) && starts_with(e@, "加载输入图片失败: "@),
            Some(d) => if (d.0 >= DASHSCOPE_MIN_INPUT_SIDE && d.1 >= DASHSCOPE_MIN_INPUT_SIDE)
                || d.0 == 0 || d.1 == 0 {
                r matches Ok(v) && v@ == image_data@
            } else {
                let s = input_upscale(d.0 as int, d.1 as int);
                if d.0 * s > u32::MAX || d.1 * s > u32::MAX || (d.0 * s) * (d.1 * s) * 4
                    > usize::MAX {
                    r matches Err(e) && starts_with(e@, "放大输入图片失败: "@)
                } else {
                    &&& r matches Ok(v) ==> is_png_of_size(v@, (d.0 * s) as u32, (d.1 * s) as u32)
                    &&& r matches Err(e) ==> starts_with(e@, "放大输入图片失败: "@)
                }
            },
        },
{
    let img = match decode_rgba8(image_data) {
        Ok(img) => img,
        Err(e) => {
            let detail = image_error_text(&e);
            let msg = join_message("加载输入图片失败: ", detail.as_str());
            proof {
                crate::text::lemma_starts_with_concat("加载输入图片失败: "@, detail@);
            }
            return Err(msg);
        },
    };
    let w = img.width;
    let h = img.height;
    if (w >= DASHSCOPE_MIN_INPUT_SIDE && h >= DASHSCOPE_MIN_INPUT_SIDE) || w == 0 || h == 0 {
        return Ok(vstd::slice::slice_to_vec(image_data));
    }
    let sw: u32 = if w < DASHSCOPE_MIN_INPUT_SIDE {
        (DASHSCOPE_MIN_INPUT_SIDE + w - 1) / w
    } else {
        1
    };
    let sh: u32 = if h < DASHSCOPE_MIN_INPUT_SIDE {
        (DASHSCOPE_MIN_INPUT_SIDE + h - 1) / h
    } else {
        1
    };
    let s = if sw >= sh {
        sw
    } else {
        sh
    };
    assert(s == input_upscale(w as int, h as int));
    proof {
        lemma_mul_u32(w as int, s as int);
        lemma_mul_u32(h as int, s as int);
    }
    let nw64: u64 = w as u64 * s as u64;
    let nh64: u64 = h as u64 * s as u64;
    let fits = if nw64 > 0xffff_ffff || nh64 > 0xffff_ffff {
        false
    } else {
        proof {
            lemma_mul_u32(nw64 as int, nh64 as int);
        }
        (nw64 as u128) * (nh64 as u128) * 4 <= usize::MAX as u128
    };
    if !fits {
        let msg = join_message("放大输入图片失败: ", "图片尺寸过大");
        proof {
            crate::text::lemma_starts_with_concat("放大输入图片失败: "@, "图片尺寸过大"@);
        }
        return Err(msg);
    }
    let nw = nw64 as u32;
    let nh = nh64 as u32;
    let resized = resize_lanczos3(&img, nw, nh);
    encode_scaled_png(&resized, "放大输入图片失败: ")
}

/// Scale a generated image to the wanted size when the provider was asked
/// for another size: decoded, scaled (Lanczos3) and written as PNG.
pub fn resize_image_if_needed(image_bytes: Vec<u8>, target: ImageSize, needs_resize: bool) -> (r: Result<
    Vec<u8>,
    String,
>)
    requires
        target.width as int * target.height as int * 4 <= usize::MAX,
    ensures
        !needs_resize ==> r == Ok::<Vec<u8>, String>(image_bytes),
        needs_resize ==> match decoded_rgba8(image_bytes@) {
            None => r matches Err(e) && starts_with(e@, "加载生成图片进行缩放失败: "@),
            Some(_) => {
                &&& r matches Ok(v) ==> is_png_of_size(v@, target.width, target.height)
                &&& r matches Err(e) ==> starts_with(e@, "缩放后编码 PNG 失败: "@)
            },
        },
{
    if !needs_resize {
        return Ok(image_bytes);
    }
    let img = match decode_rgba8(image_bytes.as_slice()) {
        Ok(img) => img,
        Err(e) => {
            let detail = image_error_text(&e);
            let msg = join_message("加载生成图片进行缩放失败: ", detail.as_str());
            proof {
                crate::text::lemma_starts_with_concat("加载生成图片进行缩放失败: "@, detail@);
            }
            return Err(msg);
        },
    };
    let resized = resize_lanczos3(&img, target.width, target.height);
    encode_scaled_png(&resized, "缩放后编码 PNG 失败: ")
}

} // verus!
