//! RGBA pixel images and the spritesheet processing done on them: chroma-key
//! removal, horizontal concatenation and mirroring of strips, and composing
//! the atlas. Decoding and encoding PNG/WebP goes through the `image` and
//! `webp` crates.
use vstd::prelude::*;
use crate::types::{ATLAS_COLS, ATLAS_ROWS, CELL_HEIGHT, CELL_WIDTH};
use crate::text::chars_of;

verus! {

/// An RGBA image with 8 bits per channel, rows top to bottom, four bytes per
/// pixel (the raw layout of `image::RgbaImage`).
#[derive(Debug, Clone)]
pub struct PixelImage {
    pub width: u32,
    pub height: u32,
    pub data: Vec<u8>,
}

/// One pixel: red, green, blue, alpha.
pub type Px = (u8, u8, u8, u8);

/// Fully transparent black.
pub open spec fn clear_px() -> Px {
    (0u8, 0u8, 0u8, 0u8)
}

/// Offset of the first byte of pixel `(x, y)` in a buffer of the given width.
pub open spec fn px_base(w: int, x: int, y: int) -> int {
    (y * w + x) * 4
}

/// The four bytes of pixel number `q` in a raw buffer.
pub open spec fn quad(s: Seq<u8>, q: int) -> Px {
    (s[q * 4], s[q * 4 + 1], s[q * 4 + 2], s[q * 4 + 3])
}

/// The abstract value of an image: its size and its raw RGBA bytes.
pub struct Raster {
    pub width: u32,
    pub height: u32,
    pub data: Seq<u8>,
}

impl Raster {
    /// The buffer holds exactly `width * height` pixels.
    pub open spec fn wf(&self) -> bool {
        self.data.len() == self.width * self.height * 4
    }

    /// The pixel at column `x`, row `y`.
    pub open spec fn px(&self, x: int, y: int) -> Px {
        let b = px_base(self.width as int, x, y);
        (self.data[b], self.data[b + 1], self.data[b + 2], self.data[b + 3])
    }

    pub open spec fn in_bounds(&self, x: int, y: int) -> bool {
        0 <= x < self.width && 0 <= y < self.height
    }
}

impl View for PixelImage {
    type V = Raster;

    open spec fn view(&self) -> Raster {
        Raster { width: self.width, height: self.height, data: self.data@ }
    }
}

impl PixelImage {
    pub open spec fn wf(&self) -> bool {
        self@.wf()
    }

    pub open spec fn px(&self, x: int, y: int) -> Px {
        self@.px(x, y)
    }

    pub open spec fn in_bounds(&self, x: int, y: int) -> bool {
        self@.in_bounds(x, y)
    }
}

/// Byte `c` (0 red, 1 green, 2 blue, 3 alpha) of a pixel.
pub open spec fn px_byte(p: Px, c: int) -> u8 {
    if c == 0 {
        p.0
    } else if c == 1 {
        p.1
    } else if c == 2 {
        p.2
    } else {
        p.3
    }
}

/// The `w` by `h` raster whose pixel at `(x, y)` is `f(x, y)`.
pub open spec fn raster_from(w: u32, h: u32, f: spec_fn(int, int) -> Px) -> Raster {
    Raster {
        width: w,
        height: h,
        data: Seq::new(
            (w * h * 4) as nat,
            |b: int| px_byte(f((b / 4) % (w as int), (b / 4) / (w as int)), b % 4),
        ),
    }
}

/// Pixel `(x, y)` of a raster built from `f` is `f(x, y)`.
pub proof fn lemma_raster_from_px(w: u32, h: u32, f: spec_fn(int, int) -> Px, x: int, y: int)
    requires
        0 <= x < w,
        0 <= y < h,
    ensures
        raster_from(w, h, f).wf(),
        raster_from(w, h, f).px(x, y) == f(x, y),
{
    let r = raster_from(w, h, f);
    let wi = w as int;
    let hi = h as int;
    assert(wi * hi * 4 >= 0) by (nonlinear_arith)
        requires
            wi >= 0,
            hi >= 0,
    ;
    lemma_built_px(wi, hi, r.data, x, y);
    lemma_px_bounds(wi, hi, x, y);
    let q = y * wi + x;
    let b = q * 4;
    assert(b / 4 == q && b % 4 == 0 && (b + 1) / 4 == q && (b + 1) % 4 == 1 && (b + 2) / 4 == q
        && (b + 2) % 4 == 2 && (b + 3) / 4 == q && (b + 3) % 4 == 3) by (nonlinear_arith)
        requires
            b == q * 4,
    ;
    assert(r.data[b] == px_byte(f(x, y), 0));
    assert(r.data[b + 1] == px_byte(f(x, y), 1));
    assert(r.data[b + 2] == px_byte(f(x, y), 2));
    assert(r.data[b + 3] == px_byte(f(x, y), 3));
}

/// Position `(x, y)` addresses four bytes inside a `w` by `h` buffer.
pub proof fn lemma_px_bounds(w: int, h: int, x: int, y: int)
    requires
        0 <= x < w,
        0 <= y < h,
    ensures
        0 <= px_base(w, x, y),
        px_base(w, x, y) + 4 <= w * h * 4,
{
    assert(y * w + x < h * w) by (nonlinear_arith)
        requires
            0 <= x < w,
            0 <= y < h,
    ;
    assert(0 <= y * w) by (nonlinear_arith)
        requires
            0 <= y,
            0 <= w,
    ;
    assert(h * w * 4 == w * h * 4) by (nonlinear_arith);
}

/// Pixel number `p` of a row-major `w`-wide image is at column `p % w`, row `p / w`.
pub proof fn lemma_linear_px(w: int, h: int, p: int)
    requires
        w > 0,
        0 <= p < w * h,
    ensures
        0 <= p % w < w,
        0 <= p / w < h,
        px_base(w, p % w, p / w) == p * 4,
{
    assert(p == (p / w) * w + p % w && 0 <= p % w < w) by (nonlinear_arith)
        requires
            w > 0,
    ;
    assert(p / w < h) by (nonlinear_arith)
        requires
            w > 0,
            0 <= p < w * h,
            p == (p / w) * w + p % w,
            0 <= p % w,
    ;
    assert(0 <= p / w) by (nonlinear_arith)
        requires
            w > 0,
            0 <= p,
    ;
}

/// Builds an image pixel by pixel in row-major order.
pub proof fn lemma_built_px(w: int, h: int, data: Seq<u8>, x: int, y: int)
    requires
        w > 0,
        0 <= x < w,
        0 <= y < h,
        data.len() == w * h * 4,
    ensures
        (y * w + x) * 4 == px_base(w, x, y),
        0 <= y * w + x < w * h,
        (y * w + x) % w == x,
        (y * w + x) / w == y,
{
    assert(0 <= y * w + x < w * h) by (nonlinear_arith)
        requires
            0 <= x < w,
            0 <= y < h,
    ;
    vstd::arithmetic::div_mod::lemma_fundamental_div_mod_converse(y * w + x, w, y, x);
}

/// Four bytes appended to a buffer.
pub open spec fn push_quad(s: Seq<u8>, p: Px) -> Seq<u8> {
    s.push(p.0).push(p.1).push(p.2).push(p.3)
}

/// Appending a pixel to a buffer of `n` pixels adds pixel number `n` and
/// keeps the others.
pub proof fn lemma_push_quad(s: Seq<u8>, n: int, p: Px)
    requires
        n >= 0,
        s.len() == n * 4,
    ensures
        push_quad(s, p).len() == (n + 1) * 4,
        quad(push_quad(s, p), n) == p,
        forall|i: int| 0 <= i < n ==> #[trigger] quad(push_quad(s, p), i) == quad(s, i),
{
    assert forall|i: int| 0 <= i < n implies #[trigger] quad(push_quad(s, p), i) == quad(s, i) by {
        assert(i * 4 + 3 < n * 4) by (nonlinear_arith)
            requires
                0 <= i < n,
        ;
    }
}

fn push_px(out: &mut Vec<u8>, p: Px)
    ensures
        final(out)@ == push_quad(old(out)@, p),
{
    out.push(p.0);
    out.push(p.1);
    out.push(p.2);
    out.push(p.3);
}

/// Pixel `(x, y)` is pixel number `y * w + x` of the buffer.
pub proof fn lemma_px_is_quad(r: Raster, x: int, y: int)
    requires
        r.wf(),
        r.in_bounds(x, y),
    ensures
        r.px(x, y) == quad(r.data, y * r.width + x),
        0 <= y * r.width + x < r.width * r.height,
{
    lemma_built_px(r.width as int, r.height as int, r.data, x, y);
}

/// A raster is determined by its size and its pixels.
pub proof fn lemma_raster_from(r: Raster, f: spec_fn(int, int) -> Px)
    requires
        r.wf(),
        forall|x: int, y: int| r.in_bounds(x, y) ==> #[trigger] r.px(x, y) == f(x, y),
    ensures
        r == raster_from(r.width, r.height, f),
{
    let w = r.width as int;
    let h = r.height as int;
    let g = raster_from(r.width, r.height, f);
    assert forall|b: int| 0 <= b < r.data.len() implies #[trigger] r.data[b] == g.data[b] by {
        let q = b / 4;
        let c = b % 4;
        assert(0 <= q < w * h && b == q * 4 + c && 0 <= c < 4) by (nonlinear_arith)
            requires
                0 <= b < w * h * 4,
                q == b / 4,
                c == b % 4,
        ;
        lemma_linear_px(w, h, q);
        let x = q % w;
        let y = q / w;
        lemma_px_is_quad(r, x, y);
        assert(y * w + x == q) by (nonlinear_arith)
            requires
                w > 0,
                x == q % w,
                y == q / w,
        ;
        assert(r.px(x, y) == f(x, y));
    }
    assert(r.data =~= g.data);
}

/// The number of pixels of a well-formed image.
fn pixel_count(img: &PixelImage) -> (n: usize)
    requires
        img.wf(),
    ensures
        n == img.width * img.height,
{
    let len: usize = img.data.len();
    assert(img.width * img.height <= len) by (nonlinear_arith)
        requires
            len == img.width * img.height * 4,
    ;
    (img.width as usize) * (img.height as usize)
}

/// Read pixel `(x, y)`.
pub fn get_px(img: &PixelImage, x: u32, y: u32) -> (r: Px)
    requires
        img.wf(),
        img.in_bounds(x as int, y as int),
    ensures
        r == img.px(x as int, y as int),
{
    proof {
        lemma_px_bounds(img.width as int, img.height as int, x as int, y as int);
        assert(0 <= (y as int) * (img.width as int) <= (y as int) * (img.width as int) + x) by (nonlinear_arith)
            requires
                0 <= y,
                0 <= x,
                0 <= img.width,
        ;
    }
    let n: usize = img.data.len();
    assert(((y as int) * (img.width as int) + x) * 4 + 4 <= n);
    let row: usize = (y as usize) * (img.width as usize);
    let b = (row + (x as usize)) * 4;
    (img.data[b], img.data[b + 1], img.data[b + 2], img.data[b + 3])
}

/// Squared Euclidean distance between two RGB colours.
pub open spec fn dist_sq(r1: u8, g1: u8, b1: u8, r2: u8, g2: u8, b2: u8) -> int {
    (r1 - r2) * (r1 - r2) + (g1 - g2) * (g1 - g2) + (b1 - b2) * (b1 - b2)
}

/// Squared distance between two colours. A colour distance below a whole
/// number `t` is the same as its square below `t * t`.
pub fn color_distance_sq(r1: u8, g1: u8, b1: u8, r2: u8, g2: u8, b2: u8) -> (d: u32)
    ensures
        d == dist_sq(r1, g1, b1, r2, g2, b2),
{
    let dr: i32 = r1 as i32 - r2 as i32;
    let dg: i32 = g1 as i32 - g2 as i32;
    let db: i32 = b1 as i32 - b2 as i32;
    assert(dr * dr <= 65025 && dg * dg <= 65025 && db * db <= 65025 && dr * dr >= 0 && dg * dg
        >= 0 && db * db >= 0) by (nonlinear_arith)
        requires
            -255 <= dr <= 255,
            -255 <= dg <= 255,
            -255 <= db <= 255,
    ;
    (dr * dr + dg * dg + db * db) as u32
}

/// Background pixels farther than 100 from the key colour are kept.
pub const CHROMA_THRESHOLD_SQ: u32 = 10000;

/// Sampled border pixels within 80 of the corner colour count as background.
pub const BACKGROUND_MATCH_SQ: u32 = 6400;

/// The value of a hexadecimal digit, if it is one.
pub open spec fn hex_digit(c: char) -> Option<u8> {
    if '0' <= c && c <= '9' {
        Some(((c as u32) - 48) as u8)
    } else if 'a' <= c && c <= 'f' {
        Some(((c as u32) - 87) as u8)
    } else if 'A' <= c && c <= 'F' {
        Some(((c as u32) - 55) as u8)
    } else {
        None
    }
}

/// `u8::from_str_radix` of a two-character string in base 16 (which admits a
/// leading `+`).
pub open spec fn parse_hex_byte(a: char, b: char) -> Option<u8> {
    if a == '+' {
        hex_digit(b)
    } else {
        match (hex_digit(a), hex_digit(b)) {
            (Some(x), Some(y)) => Some((x * 16 + y) as u8),
            _ => None,
        }
    }
}

fn hex_digit_exec(c: char) -> (r: Option<u8>)
    ensures
        r == hex_digit(c),
{
    if '0' <= c && c <= '9' {
        Some((c as u8) - 48)
    } else if 'a' <= c && c <= 'f' {
        Some((c as u8) - 87)
    } else if 'A' <= c && c <= 'F' {
        Some((c as u8) - 55)
    } else {
        None
    }
}

fn parse_hex_byte_exec(a: char, b: char) -> (r: Option<u8>)
    ensures
        r == parse_hex_byte(a, b),
{
    if a == '+' {
        return hex_digit_exec(b);
    }
    match (hex_digit_exec(a), hex_digit_exec(b)) {
        (Some(x), Some(y)) => Some(x * 16 + y),
        _ => None,
    }
}

/// The number of bytes of a character in UTF-8.
pub open spec fn utf8_len(c: char) -> int {
    if (c as u32) < 0x80 {
        1
    } else if (c as u32) < 0x800 {
        2
    } else if (c as u32) < 0x10000 {
        3
    } else {
        4
    }
}

/// The number of bytes of a text in UTF-8.
pub open spec fn byte_len(s: Seq<char>) -> int
    decreases s.len(),
{
    if s.len() == 0 {
        0
    } else {
        utf8_len(s[0]) + byte_len(s.drop_first())
    }
}

/// The first `n` two-byte pieces of a text, when the text splits there on
/// character boundaries: a piece is two ASCII characters, or one character
/// of two bytes (which is no hexadecimal number).
pub open spec fn byte_pairs(s: Seq<char>, n: nat) -> Option<Seq<Option<(char, char)>>>
    decreases n,
{
    if n == 0 {
        Some(Seq::empty())
    } else if s.len() >= 2 && (s[0] as u32) < 0x80 && (s[1] as u32) < 0x80 {
        match byte_pairs(s.subrange(2, s.len() as int), (n - 1) as nat) {
            Some(rest) => Some(seq![Some((s[0], s[1]))] + rest),
            None => None,
        }
    } else if s.len() >= 1 && utf8_len(s[0]) == 2 {
        match byte_pairs(s.drop_first(), (n - 1) as nat) {
            Some(rest) => Some(seq![None::<(char, char)>] + rest),
            None => None,
        }
    } else {
        None
    }
}

/// The text of a colour after its leading `#` signs.
pub open spec fn hex_digits_part(hex: Seq<char>) -> Seq<char> {
    crate::text::trim_front(hex, crate::text::TrimClass::Exactly('#'))
}

/// The colour string can be read: it is shorter than six bytes after its `#`
/// signs, or its first six bytes split into three pieces on character
/// boundaries (otherwise slicing it there would panic).
pub open spec fn hex_color_readable(hex: Seq<char>) -> bool {
    let h = hex_digits_part(hex);
    byte_len(h) < 6 || byte_pairs(h, 3) is Some
}

/// The value of one two-byte piece, or the default.
pub open spec fn piece_value(p: Option<(char, char)>, default: u8) -> u8 {
    match p {
        Some((a, b)) => match parse_hex_byte(a, b) {
            Some(v) => v,
            None => default,
        },
        None => default,
    }
}

/// The colour a `#RRGGBB` string names: magenta when it has fewer than six
/// bytes after its `#` signs; otherwise each two-byte piece read as a
/// hexadecimal number, with red 255, green 0 and blue 255 for a piece that
/// is not one.
pub open spec fn spec_parse_hex_color(hex: Seq<char>) -> (u8, u8, u8) {
    let h = hex_digits_part(hex);
    if byte_len(h) < 6 {
        (255u8, 0u8, 255u8)
    } else {
        let ps = byte_pairs(h, 3).unwrap();
        (piece_value(ps[0], 255), piece_value(ps[1], 0), piece_value(ps[2], 255))
    }
}

/// All characters are ASCII.
pub open spec fn is_ascii_text(s: Seq<char>) -> bool {
    forall|i: int| 0 <= i < s.len() ==> (#[trigger] s[i] as u32) < 0x80
}

fn utf8_len_exec(c: char) -> (r: u32)
    ensures
        r == utf8_len(c),
{
    let v = c as u32;
    if v < 0x80 {
        1
    } else if v < 0x800 {
        2
    } else if v < 0x10000 {
        3
    } else {
        4
    }
}

proof fn lemma_byte_len_split(s: Seq<char>, i: int)
    requires
        0 <= i <= s.len(),
    ensures
        byte_len(s) == byte_len(s.subrange(0, i)) + byte_len(s.subrange(i, s.len() as int)),
        byte_len(s.subrange(i, s.len() as int)) >= 0,
    decreases i,
{
    if i == 0 {
        assert(s.subrange(0, 0).len() == 0);
        assert(s.subrange(0, s.len() as int) =~= s);
        lemma_byte_len_nonneg(s);
    } else {
        let t = s.drop_first();
        lemma_byte_len_split(t, i - 1);
        assert(t.subrange(0, i - 1) =~= s.subrange(0, i).drop_first());
        assert(t.subrange(i - 1, t.len() as int) =~= s.subrange(i, s.len() as int));
        assert(s.subrange(0, i)[0] == s[0]);
    }
}

proof fn lemma_byte_len_nonneg(s: Seq<char>)
    ensures
        byte_len(s) >= 0,
    decreases s.len(),
{
    if s.len() > 0 {
        lemma_byte_len_nonneg(s.drop_first());
    }
}

/// Whether the text has fewer than six bytes.
fn shorter_than_six_bytes(h: &Vec<char>) -> (r: bool)
    ensures
        r == (byte_len(h@) < 6),
{
    let n = h.len();
    let mut acc: u32 = 0;
    let mut i: usize = 0;
    assert(h@.subrange(0, 0).len() == 0);
    while i < n && acc < 6
        invariant
            n == h@.len(),
            i <= n,
            acc <= 9,
            acc == byte_len(h@.subrange(0, i as int)),
        decreases n - i,
    {
        let ghost pre = h@.subrange(0, i as int);
        let ghost next = h@.subrange(0, i + 1);
        proof {
            lemma_byte_len_split(next, i as int);
            assert(next.subrange(0, i as int) =~= pre);
            let one = next.subrange(i as int, i + 1);
            assert(one.drop_first().len() == 0);
            assert(byte_len(one.drop_first()) == 0);
            assert(one[0] == h@[i as int]);
            assert(byte_len(one) == utf8_len(one[0]) + byte_len(one.drop_first()));
        }
        acc = acc + utf8_len_exec(h[i]);
        i = i + 1;
    }
    proof {
        lemma_byte_len_split(h@, i as int);
        assert(h@.subrange(0, n as int) =~= h@);
    }
    acc < 6
}

proof fn lemma_ascii_byte_len(s: Seq<char>)
    requires
        is_ascii_text(s),
    ensures
        byte_len(s) == s.len(),
    decreases s.len(),
{
    if s.len() > 0 {
        assert((s[0] as u32) < 0x80);
        assert(is_ascii_text(s.drop_first())) by {
            assert forall|i: int| 0 <= i < s.drop_first().len() implies (#[trigger] s.drop_first()[i] as u32)
                < 0x80 by {
                assert(s.drop_first()[i] == s[i + 1]);
            }
        }
        lemma_ascii_byte_len(s.drop_first());
    }
}

proof fn lemma_ascii_pairs(s: Seq<char>, n: nat)
    requires
        is_ascii_text(s),
        s.len() >= 2 * n,
    ensures
        byte_pairs(s, n) is Some,
    decreases n,
{
    if n > 0 {
        assert((s[0] as u32) < 0x80 && (s[1] as u32) < 0x80);
        let t = s.subrange(2, s.len() as int);
        assert(is_ascii_text(t)) by {
            assert forall|i: int| 0 <= i < t.len() implies (#[trigger] t[i] as u32) < 0x80 by {
                assert(t[i] == s[i + 2]);
            }
        }
        lemma_ascii_pairs(t, (n - 1) as nat);
    }
}

/// An ASCII colour string can always be read.
pub proof fn lemma_ascii_color_readable(hex: Seq<char>)
    requires
        is_ascii_text(hex),
    ensures
        hex_color_readable(hex),
{
    let h = hex_digits_part(hex);
    crate::text::lemma_trim_front_suffix(hex, crate::text::TrimClass::Exactly('#'));
    assert(is_ascii_text(h)) by {
        assert forall|i: int| 0 <= i < h.len() implies (#[trigger] h[i] as u32) < 0x80 by {
            assert(h[i] == hex[hex.len() - h.len() + i]);
        }
    }
    lemma_ascii_byte_len(h);
    if h.len() >= 6 {
        lemma_ascii_pairs(h, 3);
    }
}

/// The default of channel `j` (red, green, blue) when its piece is not a
/// hexadecimal number.
pub open spec fn channel_default(j: int) -> u8 {
    if j == 1 {
        0
    } else {
        255
    }
}

proof fn lemma_byte_pairs_len(s: Seq<char>, n: nat)
    requires
        byte_pairs(s, n) is Some,
    ensures
        byte_pairs(s, n).unwrap().len() == n,
    decreases n,
{
    if n > 0 {
        if s.len() >= 2 && (s[0] as u32) < 0x80 && (s[1] as u32) < 0x80 {
            lemma_byte_pairs_len(s.subrange(2, s.len() as int), (n - 1) as nat);
        } else {
            lemma_byte_pairs_len(s.drop_first(), (n - 1) as nat);
        }
    }
}

/// Parse a `#RRGGBB` colour.
pub fn parse_hex_color(hex: &str) -> (r: (u8, u8, u8))
    requires
        hex_color_readable(hex@),
    ensures
        r == spec_parse_hex_color(hex@),
{
    let v = chars_of(hex);
    let h = crate::text::trim_vec(&v, crate::text::TrimClass::Exactly('#'), true, false);
    if shorter_than_six_bytes(&h) {
        return (255, 0, 255);
    }
    let ghost hs = h@;
    let ghost ps = byte_pairs(hs, 3).unwrap();
    proof {
        lemma_byte_pairs_len(hs, 3);
        assert(hs.subrange(0, hs.len() as int) =~= hs);
        assert(ps.subrange(0, 3) =~= ps);
    }
    let mut vals: Vec<u8> = Vec::new();
    let mut pos: usize = 0;
    let mut k: usize = 0;
    while k < 3
        invariant
            hs == h@,
            ps.len() == 3,
            0 <= k <= 3,
            pos <= hs.len(),
            vals@.len() == k,
            byte_pairs(hs.subrange(pos as int, hs.len() as int), (3 - k) as nat) == Some(
                ps.subrange(k as int, 3),
            ),
            forall|j: int| 0 <= j < k ==> #[trigger] vals@[j] == piece_value(ps[j], channel_default(j)),
        decreases 3 - k,
    {
        let ghost rest = hs.subrange(pos as int, hs.len() as int);
        let ghost m = (3 - k) as nat;
        let default: u8 = if k == 1 {
            0
        } else {
            255
        };
        let ascii_pair = h.len() - pos >= 2 && (h[pos] as u32) < 0x80 && (h[pos + 1] as u32) < 0x80;
        if ascii_pair {
            assert(rest[0] == hs[pos as int] && rest[1] == hs[pos + 1]);
            assert(rest.subrange(2, rest.len() as int) =~= hs.subrange(pos + 2, hs.len() as int));
            let ghost tail = byte_pairs(rest.subrange(2, rest.len() as int), (m - 1) as nat);
            assert(tail is Some);
            assert(seq![Some((rest[0], rest[1]))] + tail.unwrap() == ps.subrange(k as int, 3));
            assert(ps[k as int] == ps.subrange(k as int, 3)[0]);
            assert((seq![Some((rest[0], rest[1]))] + tail.unwrap()).drop_first() =~= tail.unwrap());
            assert(ps.subrange(k as int, 3).drop_first() =~= ps.subrange(k + 1, 3));
            let value = match parse_hex_byte_exec(h[pos], h[pos + 1]) {
                Some(x) => x,
                None => default,
            };
            vals.push(value);
            pos = pos + 2;
        } else {
            assert(rest.len() >= 1 && rest[0] == hs[pos as int]);
            assert(rest.drop_first() =~= hs.subrange(pos + 1, hs.len() as int));
            let ghost tail = byte_pairs(rest.drop_first(), (m - 1) as nat);
            assert(tail is Some);
            assert(seq![None::<(char, char)>] + tail.unwrap() == ps.subrange(k as int, 3));
            assert(ps[k as int] == ps.subrange(k as int, 3)[0]);
            assert((seq![None::<(char, char)>] + tail.unwrap()).drop_first() =~= tail.unwrap());
            assert(ps.subrange(k as int, 3).drop_first() =~= ps.subrange(k + 1, 3));
            vals.push(default);
            pos = pos + 1;
        }
        k = k + 1;
    }
    (vals[0], vals[1], vals[2])
}

/// The sixteen border positions sampled to find the background colour.
pub open spec fn sample_point(w: int, h: int, i: int) -> (int, int) {
    if i == 0 {
        (0, 0)
    } else if i == 1 {
        (1, 0)
    } else if i == 2 {
        (0, 1)
    } else if i == 3 {
        (w - 1, 0)
    } else if i == 4 {
        (w - 2, 0)
    } else if i == 5 {
        (w - 1, 1)
    } else if i == 6 {
        (0, h - 1)
    } else if i == 7 {
        (1, h - 1)
    } else if i == 8 {
        (0, h - 2)
    } else if i == 9 {
        (w - 1, h - 1)
    } else if i == 10 {
        (w - 2, h - 1)
    } else if i == 11 {
        (w - 1, h - 2)
    } else if i == 12 {
        (w / 2, 0)
    } else if i == 13 {
        (w / 2, h - 1)
    } else if i == 14 {
        (0, h / 2)
    } else {
        (w - 1, h / 2)
    }
}

fn sample_point_exec(w: u32, h: u32, i: u32) -> (r: (u32, u32))
    requires
        w >= 4,
        h >= 4,
        i < 16,
    ensures
        r.0 == sample_point(w as int, h as int, i as int).0,
        r.1 == sample_point(w as int, h as int, i as int).1,
        r.0 < w,
        r.1 < h,
{
    if i == 0 {
        (0, 0)
    } else if i == 1 {
        (1, 0)
    } else if i == 2 {
        (0, 1)
    } else if i == 3 {
        (w - 1, 0)
    } else if i == 4 {
        (w - 2, 0)
    } else if i == 5 {
        (w - 1, 1)
    } else if i == 6 {
        (0, h - 1)
    } else if i == 7 {
        (1, h - 1)
    } else if i == 8 {
        (0, h - 2)
    } else if i == 9 {
        (w - 1, h - 1)
    } else if i == 10 {
        (w - 2, h - 1)
    } else if i == 11 {
        (w - 1, h - 2)
    } else if i == 12 {
        (w / 2, 0)
    } else if i == 13 {
        (w / 2, h - 1)
    } else if i == 14 {
        (0, h / 2)
    } else {
        (w - 1, h / 2)
    }
}

/// Whether sample `i` counts toward the background colour: opaque enough and
/// close to the top-left pixel.
pub open spec fn sample_counts(img: Raster, i: int) -> bool {
    let (x, y) = sample_point(img.width as int, img.height as int, i);
    let p = img.px(x, y);
    let f = img.px(0, 0);
    p.3 >= 128 && dist_sq(p.0, p.1, p.2, f.0, f.1, f.2) < BACKGROUND_MATCH_SQ
}

/// Channel sums and count over the first `k` samples that count.
pub open spec fn sample_sums(img: Raster, k: int) -> (int, int, int, int)
    decreases k,
{
    if k <= 0 {
        (0, 0, 0, 0)
    } else {
        let prev = sample_sums(img, k - 1);
        if sample_counts(img, k - 1) {
            let (x, y) = sample_point(img.width as int, img.height as int, k - 1);
            let p = img.px(x, y);
            (prev.0 + p.0, prev.1 + p.1, prev.2 + p.2, prev.3 + 1)
        } else {
            prev
        }
    }
}

/// The detected background colour: the average of the border samples that
/// match the top-left pixel, when at least eight of the sixteen do.
pub open spec fn spec_detect_background(img: Raster) -> Option<(u8, u8, u8)> {
    if img.width < 4 || img.height < 4 {
        None
    } else {
        let s = sample_sums(img, 16);
        if s.3 < 8 {
            None
        } else {
            Some(((s.0 / s.3) as u8, (s.1 / s.3) as u8, (s.2 / s.3) as u8))
        }
    }
}

proof fn lemma_sample_sums_bounds(img: Raster, k: int)
    requires
        0 <= k,
    ensures
        0 <= sample_sums(img, k).3 <= k,
        0 <= sample_sums(img, k).0 <= 255 * sample_sums(img, k).3,
        0 <= sample_sums(img, k).1 <= 255 * sample_sums(img, k).3,
        0 <= sample_sums(img, k).2 <= 255 * sample_sums(img, k).3,
    decreases k,
{
    if k > 0 {
        lemma_sample_sums_bounds(img, k - 1);
    }
}

/// Find the background colour by sampling the border.
pub fn detect_background_color(img: &PixelImage) -> (r: Option<(u8, u8, u8)>)
    requires
        img.wf(),
    ensures
        r == spec_detect_background(img@),
{
    let w = img.width;
    let h = img.height;
    if w < 4 || h < 4 {
        return None;
    }
    let first = get_px(img, 0, 0);
    let mut r_sum: u64 = 0;
    let mut g_sum: u64 = 0;
    let mut b_sum: u64 = 0;
    let mut count: u64 = 0;
    let mut i: u32 = 0;
    while i < 16
        invariant
            img.wf(),
            w == img.width,
            h == img.height,
            w >= 4,
            h >= 4,
            i <= 16,
            first == img.px(0, 0),
            (r_sum as int, g_sum as int, b_sum as int, count as int) == sample_sums(img@, i as int),
        decreases 16 - i,
    {
        proof {
            lemma_sample_sums_bounds(img@, i as int);
        }
        let (x, y) = sample_point_exec(w, h, i);
        let p = get_px(img, x, y);
        if p.3 >= 128 && color_distance_sq(p.0, p.1, p.2, first.0, first.1, first.2)
            < BACKGROUND_MATCH_SQ {
            r_sum = r_sum + p.0 as u64;
            g_sum = g_sum + p.1 as u64;
            b_sum = b_sum + p.2 as u64;
            count = count + 1;
        }
        i = i + 1;
    }
    if count < 8 {
        return None;
    }
    proof {
        lemma_sample_sums_bounds(img@, 16);
        assert(r_sum / count <= 255 && g_sum / count <= 255 && b_sum / count <= 255)
            by (nonlinear_arith)
            requires
                r_sum <= 255 * count,
                g_sum <= 255 * count,
                b_sum <= 255 * count,
                count >= 8,
        ;
    }
    Some(((r_sum / count) as u8, (g_sum / count) as u8, (b_sum / count) as u8))
}

/// A pixel after chroma-key removal against the key colour.
pub open spec fn keyed_px(p: Px, key: (u8, u8, u8)) -> Px {
    if dist_sq(p.0, p.1, p.2, key.0, key.1, key.2) < CHROMA_THRESHOLD_SQ {
        clear_px()
    } else {
        p
    }
}

/// The key colour used for an image: the detected background, or the given one.
pub open spec fn chroma_key_for(img: Raster, chroma_hex: Seq<char>) -> (u8, u8, u8) {
    match spec_detect_background(img) {
        Some(c) => c,
        None => spec_parse_hex_color(chroma_hex),
    }
}

/// The image with its background replaced by transparency.
pub open spec fn chroma_removed(img: Raster, chroma_hex: Seq<char>) -> Raster {
    raster_from(
        img.width,
        img.height,
        |x: int, y: int| keyed_px(img.px(x, y), chroma_key_for(img, chroma_hex)),
    )
}

/// Chroma-key removal judges a pixel by all three colour channels: a pixel
/// whose red, green and blue together lie within distance 100 of the key
/// colour (squared distance below 10000) becomes transparent black, and every
/// other pixel is kept exactly as it was; the size does not change.
pub proof fn chroma_key_uses_full_colour_distance(img: Raster, chroma_hex: Seq<char>)
    ensures
        chroma_removed(img, chroma_hex).width == img.width,
        chroma_removed(img, chroma_hex).height == img.height,
        forall|x: int, y: int|
            img.in_bounds(x, y) ==> {
                let p = img.px(x, y);
                let k = chroma_key_for(img, chroma_hex);
                #[trigger] chroma_removed(img, chroma_hex).px(x, y) == if (p.0 - k.0) * (p.0 - k.0)
                    + (p.1 - k.1) * (p.1 - k.1) + (p.2 - k.2) * (p.2 - k.2) < 10000 {
                    (0u8, 0u8, 0u8, 0u8)
                } else {
                    p
                }
            },
{
    let key = chroma_key_for(img, chroma_hex);
    assert forall|x: int, y: int| img.in_bounds(x, y) implies {
        let p = img.px(x, y);
        let k = chroma_key_for(img, chroma_hex);
        #[trigger] chroma_removed(img, chroma_hex).px(x, y) == if (p.0 - k.0) * (p.0 - k.0) + (p.1
            - k.1) * (p.1 - k.1) + (p.2 - k.2) * (p.2 - k.2) < 10000 {
            (0u8, 0u8, 0u8, 0u8)
        } else {
            p
        }
    } by {
        lemma_raster_from_px(
            img.width,
            img.height,
            |x: int, y: int| keyed_px(img.px(x, y), key),
            x,
            y,
        );
    }
}

/// Replace the background with transparency: the background colour is
/// detected from the border (falling back to `chroma_hex`, which is read
/// only then), and every pixel within distance 100 of it becomes transparent
/// black.
pub fn remove_chroma_key(img: &PixelImage, chroma_hex: &str) -> (r: PixelImage)
    requires
        img.wf(),
        spec_detect_background(img@) is None ==> hex_color_readable(chroma_hex@),
    ensures
        r.wf(),
        r.width == img.width,
        r.height == img.height,
        r@ == chroma_removed(img@, chroma_hex@),
        forall|x: int, y: int|
            img.in_bounds(x, y) ==> #[trigger] r.px(x, y) == keyed_px(
                img.px(x, y),
                chroma_key_for(img@, chroma_hex@),
            ),
{
    let key = match detect_background_color(img) {
        Some(c) => c,
        None => parse_hex_color(chroma_hex),
    };
    let n = img.data.len();
    let mut out: Vec<u8> = Vec::new();
    let mut p: usize = 0;
    assert(n % 4 == 0) by (nonlinear_arith)
        requires
            n == img.width * img.height * 4,
    ;
    while p < n
        invariant
            n == img.data@.len(),
            n % 4 == 0,
            p % 4 == 0,
            p <= n,
            out@.len() == p,
            forall|q: int|
                0 <= q < p / 4 ==> #[trigger] quad(out@, q) == keyed_px(quad(img.data@, q), key),
        decreases n - p,
    {
        let ghost before = out@;
        let r = img.data[p];
        let g = img.data[p + 1];
        let b = img.data[p + 2];
        let a = img.data[p + 3];
        if color_distance_sq(r, g, b, key.0, key.1, key.2) < CHROMA_THRESHOLD_SQ {
            out.push(0);
            out.push(0);
            out.push(0);
            out.push(0);
        } else {
            out.push(r);
            out.push(g);
            out.push(b);
            out.push(a);
        }
        assert forall|q: int| 0 <= q < (p + 4) / 4 implies #[trigger] quad(out@, q) == keyed_px(
            quad(img.data@, q),
            key,
        ) by {
            if q == p / 4 {
                assert(q * 4 == p);
            } else {
                assert(q * 4 + 3 < p) by (nonlinear_arith)
                    requires
                        0 <= q < p / 4,
                        p % 4 == 0,
                ;
                assert(quad(out@, q) == quad(before, q));
            }
        }
        p = p + 4;
    }
    let result = PixelImage { width: img.width, height: img.height, data: out };
    assert forall|x: int, y: int| img.in_bounds(x, y) implies #[trigger] result.px(x, y)
        == keyed_px(img.px(x, y), chroma_key_for(img@, chroma_hex@)) by {
        lemma_px_bounds(img.width as int, img.height as int, x, y);
        let q = y * img.width + x;
        assert(px_base(img.width as int, x, y) == q * 4);
        assert(q < p / 4);
        assert(quad(out@, q) == keyed_px(quad(img.data@, q), key));
    }
    proof {
        let f = |x: int, y: int| keyed_px(img@.px(x, y), chroma_key_for(img@, chroma_hex@));
        assert forall|x: int, y: int| result@.in_bounds(x, y) implies #[trigger] result@.px(x, y)
            == f(x, y) by {
            assert(result.px(x, y) == keyed_px(img.px(x, y), chroma_key_for(img@, chroma_hex@)));
        }
        lemma_raster_from(result@, f);
    }
    result
}

/// The pixels of `r` mirrored left to right.
pub open spec fn mirrored_px(r: Raster, x: int, y: int) -> Px {
    r.px(r.width - 1 - x, y)
}

/// The raster mirrored left to right.
pub open spec fn mirrored(r: Raster) -> Raster {
    raster_from(r.width, r.height, |x: int, y: int| mirrored_px(r, x, y))
}

/// Mirror an image left to right (`DynamicImage::fliph`).
pub fn flip_horizontal(img: &PixelImage) -> (r: PixelImage)
    requires
        img.wf(),
    ensures
        r.wf(),
        r@ == mirrored(img@),
        r.width == img.width,
        r.height == img.height,
        forall|x: int, y: int| r.in_bounds(x, y) ==> #[trigger] r.px(x, y) == mirrored_px(img@, x, y),
{
    let w = img.width;
    let h = img.height;
    let total = pixel_count(img);
    let mut out: Vec<u8> = Vec::new();
    let mut q: usize = 0;
    while q < total
        invariant
            img.wf(),
            w == img.width,
            h == img.height,
            total == w * h,
            q <= total,
            out@.len() == q * 4,
            forall|i: int|
                0 <= i < q ==> #[trigger] quad(out@, i) == mirrored_px(
                    img@,
                    i % (w as int),
                    i / (w as int),
                ),
        decreases total - q,
    {
        assert(w > 0) by (nonlinear_arith)
            requires
                q < total,
                total == w * h,
        ;
        proof {
            lemma_linear_px(w as int, h as int, q as int);
        }
        let x = (q % (w as usize)) as u32;
        let y = (q / (w as usize)) as u32;
        let p = get_px(img, w - 1 - x, y);
        proof {
            lemma_push_quad(out@, q as int, p);
        }
        push_px(&mut out, p);
        q = q + 1;
    }
    let r = PixelImage { width: w, height: h, data: out };
    proof {
        assert forall|x: int, y: int| r.in_bounds(x, y) implies #[trigger] r.px(x, y)
            == mirrored_px(img@, x, y) by {
            lemma_px_is_quad(r@, x, y);
            lemma_built_px(w as int, h as int, r.data@, x, y);
            assert(quad(out@, y * w + x) == mirrored_px(img@, x, y));
        }
        let f = |x: int, y: int| mirrored_px(img@, x, y);
        assert forall|x: int, y: int| r@.in_bounds(x, y) implies #[trigger] r@.px(x, y) == f(x, y) by {
            assert(r.px(x, y) == mirrored_px(img@, x, y));
        }
        lemma_raster_from(r@, f);
    }
    r
}

/// The abstract values of a sequence of images.
pub open spec fn rasters(imgs: Seq<PixelImage>) -> Seq<Raster> {
    imgs.map_values(|i: PixelImage| i@)
}

/// Total width of the rasters from index `k` on.
pub open spec fn widths_from(rs: Seq<Raster>, k: int) -> int
    decreases rs.len() - k,
{
    if 0 <= k < rs.len() {
        rs[k].width + widths_from(rs, k + 1)
    } else {
        0
    }
}

/// Pixel `(x, y)` of the rasters from index `k` on placed left to right and
/// top-aligned; below a shorter raster the pixels are transparent black.
pub open spec fn side_by_side_px(rs: Seq<Raster>, k: int, x: int, y: int) -> Px
    decreases rs.len() - k,
{
    if 0 <= k < rs.len() {
        if x < rs[k].width {
            if y < rs[k].height {
                rs[k].px(x, y)
            } else {
                clear_px()
            }
        } else {
            side_by_side_px(rs, k + 1, x - rs[k].width, y)
        }
    } else {
        clear_px()
    }
}

/// The rasters can be placed side by side in one image: there is at least one,
/// none is taller than the first, and the total width and the buffer size fit.
pub open spec fn fits_side_by_side(rs: Seq<Raster>) -> bool {
    &&& rs.len() > 0
    &&& forall|k: int| 0 <= k < rs.len() ==> #[trigger] rs[k].height <= rs[0].height
    &&& widths_from(rs, 0) <= u32::MAX
    &&& widths_from(rs, 0) * rs[0].height * 4 <= usize::MAX
}

/// The image made of the rasters placed side by side.
pub open spec fn side_by_side(rs: Seq<Raster>) -> Raster {
    raster_from(
        widths_from(rs, 0) as u32,
        rs[0].height,
        |x: int, y: int| side_by_side_px(rs, 0, x, y),
    )
}

proof fn lemma_widths_from_nonneg(rs: Seq<Raster>, k: int)
    ensures
        widths_from(rs, k) >= 0,
    decreases rs.len() - k,
{
    if 0 <= k < rs.len() {
        lemma_widths_from_nonneg(rs, k + 1);
    }
}

/// Which image column `x` of the side-by-side image falls in, and the column
/// inside that image.
fn locate_column(imgs: &Vec<PixelImage>, x: u32) -> (r: (usize, u32))
    requires
        x < widths_from(rasters(imgs@), 0),
    ensures
        r.0 < imgs@.len(),
        r.1 < imgs@[r.0 as int].width,
        forall|y: int| side_by_side_px(rasters(imgs@), 0, x as int, y) == side_by_side_px(
            rasters(imgs@),
            r.0 as int,
            r.1 as int,
            y,
        ),
{
    let ghost rs = rasters(imgs@);
    let n = imgs.len();
    let mut k: usize = 0;
    let mut rem: u32 = x;
    while k < n && rem >= imgs[k].width
        invariant
            n == imgs@.len(),
            rs == rasters(imgs@),
            k <= n,
            rem < widths_from(rs, k as int),
            forall|y: int| side_by_side_px(rs, 0, x as int, y) == side_by_side_px(
                rs,
                k as int,
                rem as int,
                y,
            ),
        decreases n - k,
    {
        rem = rem - imgs[k].width;
        k = k + 1;
    }
    (k, rem)
}

pub proof fn lemma_widths_from_mono(rs: Seq<Raster>, j: int, k: int)
    requires
        0 <= j <= k,
    ensures
        widths_from(rs, j) >= widths_from(rs, k),
    decreases k - j,
{
    if j < k {
        lemma_widths_from_mono(rs, j + 1, k);
        lemma_widths_from_nonneg(rs, j + 1);
    }
}

/// Place the images left to right in one image as tall as the first; each is
/// copied at its own size from the top row down, the rest stays transparent
/// black.
pub fn concat_images(imgs: &Vec<PixelImage>) -> (r: PixelImage)
    requires
        fits_side_by_side(rasters(imgs@)),
        forall|k: int| 0 <= k < imgs@.len() ==> #[trigger] imgs@[k].wf(),
    ensures
        r.wf(),
        r@ == side_by_side(rasters(imgs@)),
        forall|x: int, y: int|
            r.in_bounds(x, y) ==> #[trigger] r.px(x, y) == side_by_side_px(rasters(imgs@), 0, x, y),
{
    let ghost rs = rasters(imgs@);
    let n = imgs.len();
    let mut total: u32 = 0;
    let mut k: usize = n;
    while k > 0
        invariant
            n == imgs@.len(),
            rs == rasters(imgs@),
            fits_side_by_side(rs),
            k <= n,
            total == widths_from(rs, k as int),
        decreases k,
    {
        proof {
            lemma_widths_from_mono(rs, 0, k - 1);
        }
        total = total + imgs[k - 1].width;
        k = k - 1;
    }
    let w = total;
    let h = imgs[0].height;
    assert(w * h <= usize::MAX) by (nonlinear_arith)
        requires
            w * h * 4 <= usize::MAX,
    ;
    let count: usize = (w as usize) * (h as usize);
    let mut out: Vec<u8> = Vec::new();
    let mut q: usize = 0;
    while q < count
        invariant
            n == imgs@.len(),
            rs == rasters(imgs@),
            fits_side_by_side(rs),
            forall|k: int| 0 <= k < imgs@.len() ==> #[trigger] imgs@[k].wf(),
            w == widths_from(rs, 0),
            h == rs[0].height,
            count == w * h,
            q <= count,
            out@.len() == q * 4,
            forall|i: int|
                0 <= i < q ==> #[trigger] quad(out@, i) == side_by_side_px(
                    rs,
                    0,
                    i % (w as int),
                    i / (w as int),
                ),
        decreases count - q,
    {
        assert(w > 0) by (nonlinear_arith)
            requires
                q < count,
                count == w * h,
        ;
        proof {
            lemma_linear_px(w as int, h as int, q as int);
        }
        let x = (q % (w as usize)) as u32;
        let y = (q / (w as usize)) as u32;
        let (k, lx) = locate_column(imgs, x);
        let img = &imgs[k];
        let p = if y < img.height {
            get_px(img, lx, y)
        } else {
            (0u8, 0u8, 0u8, 0u8)
        };
        assert(p == side_by_side_px(rs, k as int, lx as int, y as int));
        proof {
            lemma_push_quad(out@, q as int, p);
        }
        push_px(&mut out, p);
        q = q + 1;
    }
    let r = PixelImage { width: w, height: h, data: out };
    proof {
        assert forall|x: int, y: int| r.in_bounds(x, y) implies #[trigger] r.px(x, y)
            == side_by_side_px(rs, 0, x, y) by {
            lemma_px_is_quad(r@, x, y);
            lemma_built_px(w as int, h as int, r.data@, x, y);
            assert(quad(out@, y * w + x) == side_by_side_px(rs, 0, x, y));
        }
        let f = |x: int, y: int| side_by_side_px(rs, 0, x, y);
        assert forall|x: int, y: int| r@.in_bounds(x, y) implies #[trigger] r@.px(x, y) == f(x, y) by {
            assert(r.px(x, y) == side_by_side_px(rs, 0, x, y));
        }
        lemma_raster_from(r@, f);
    }
    r
}

/// Pixel `(x, y)` lies inside `r` and is not fully transparent.
pub open spec fn inked(r: Raster, x: int, y: int) -> bool {
    r.in_bounds(x, y) && r.px(x, y).3 > 0
}

/// Some pixel of `r` is not fully transparent.
pub open spec fn has_ink(r: Raster) -> bool {
    exists|x: int, y: int| inked(r, x, y)
}

/// `m` is the leftmost column with ink.
pub open spec fn is_ink_min_x(r: Raster, m: int) -> bool {
    &&& exists|y: int| inked(r, m, y)
    &&& forall|x: int, y: int| #[trigger] inked(r, x, y) ==> m <= x
}

/// `m` is the rightmost column with ink.
pub open spec fn is_ink_max_x(r: Raster, m: int) -> bool {
    &&& exists|y: int| inked(r, m, y)
    &&& forall|x: int, y: int| #[trigger] inked(r, x, y) ==> x <= m
}

/// `m` is the top row with ink.
pub open spec fn is_ink_min_y(r: Raster, m: int) -> bool {
    &&& exists|x: int| inked(r, x, m)
    &&& forall|x: int, y: int| #[trigger] inked(r, x, y) ==> m <= y
}

/// `m` is the bottom row with ink.
pub open spec fn is_ink_max_y(r: Raster, m: int) -> bool {
    &&& exists|x: int| inked(r, x, m)
    &&& forall|x: int, y: int| #[trigger] inked(r, x, y) ==> y <= m
}

pub open spec fn ink_min_x(r: Raster) -> int {
    choose|m: int| is_ink_min_x(r, m)
}

pub open spec fn ink_max_x(r: Raster) -> int {
    choose|m: int| is_ink_max_x(r, m)
}

pub open spec fn ink_min_y(r: Raster) -> int {
    choose|m: int| is_ink_min_y(r, m)
}

pub open spec fn ink_max_y(r: Raster) -> int {
    choose|m: int| is_ink_max_y(r, m)
}

/// Where content `extent` pixels long starts when centred in `cell` pixels
/// (flush with the start when it does not fit).
pub open spec fn centred_start(cell: int, extent: int) -> int {
    if extent < cell {
        (cell - extent) / 2
    } else {
        0
    }
}

/// Pixel `(x, y)` of the cell holding the ink of `r` cropped to its bounding
/// box and centred; content larger than the cell is cut at the right and the
/// bottom, and an image without ink gives an empty cell.
pub open spec fn centred_px(r: Raster, x: int, y: int) -> Px {
    if !has_ink(r) {
        clear_px()
    } else {
        let x0 = ink_min_x(r);
        let y0 = ink_min_y(r);
        let cw = ink_max_x(r) - x0 + 1;
        let ch = ink_max_y(r) - y0 + 1;
        let cx = x - centred_start(CELL_WIDTH as int, cw);
        let cy = y - centred_start(CELL_HEIGHT as int, ch);
        if 0 <= cx < cw && cx < CELL_WIDTH && 0 <= cy < ch && cy < CELL_HEIGHT {
            r.px(x0 + cx, y0 + cy)
        } else {
            clear_px()
        }
    }
}

/// The animation cell made from `r` by centring its ink.
pub open spec fn centred(r: Raster) -> Raster {
    raster_from(CELL_WIDTH, CELL_HEIGHT, |x: int, y: int| centred_px(r, x, y))
}

/// The bounds of the ink are unique.
pub proof fn lemma_ink_bounds_unique(r: Raster, x0: int, y0: int, x1: int, y1: int)
    requires
        is_ink_min_x(r, x0),
        is_ink_min_y(r, y0),
        is_ink_max_x(r, x1),
        is_ink_max_y(r, y1),
    ensures
        has_ink(r),
        ink_min_x(r) == x0,
        ink_min_y(r) == y0,
        ink_max_x(r) == x1,
        ink_max_y(r) == y1,
        0 <= x0 <= x1 < r.width,
        0 <= y0 <= y1 < r.height,
{
    let wy = choose|y: int| inked(r, x0, y);
    assert(inked(r, x0, wy));
    let a = ink_min_x(r);
    let wa = choose|y: int| inked(r, a, y);
    assert(inked(r, a, wa));
    let b = ink_max_x(r);
    let wb = choose|y: int| inked(r, b, y);
    assert(inked(r, b, wb));
    let c = ink_min_y(r);
    let wc = choose|x: int| inked(r, x, c);
    assert(inked(r, wc, c));
    let d = ink_max_y(r);
    let wd = choose|x: int| inked(r, x, d);
    assert(inked(r, wd, d));
    let wx1 = choose|y: int| inked(r, x1, y);
    assert(inked(r, x1, wx1));
    let wy0 = choose|x: int| inked(r, x, y0);
    assert(inked(r, wy0, y0));
    let wy1 = choose|x: int| inked(r, x, y1);
    assert(inked(r, wy1, y1));
}

/// The bounding box of the pixels with ink: left, top, right, bottom.
fn ink_bounds(src: &PixelImage) -> (r: Option<(u32, u32, u32, u32)>)
    requires
        src.wf(),
    ensures
        r is None <==> !has_ink(src@),
        r matches Some(b) ==> is_ink_min_x(src@, b.0 as int) && is_ink_min_y(src@, b.1 as int)
            && is_ink_max_x(src@, b.2 as int) && is_ink_max_y(src@, b.3 as int),
{
    let w = src.width;
    let h = src.height;
    let mut found = false;
    let mut min_x: u32 = 0;
    let mut min_y: u32 = 0;
    let mut max_x: u32 = 0;
    let mut max_y: u32 = 0;
    let ghost mut y_of_min_x: int = 0;
    let ghost mut y_of_max_x: int = 0;
    let ghost mut x_of_min_y: int = 0;
    let ghost mut x_of_max_y: int = 0;
    let mut y: u32 = 0;
    while y < h
        invariant
            src.wf(),
            w == src.width,
            h == src.height,
            y <= h,
            !found ==> forall|xx: int, yy: int| yy < y ==> !#[trigger] inked(src@, xx, yy),
            found ==> forall|xx: int, yy: int|
                yy < y && #[trigger] inked(src@, xx, yy) ==> min_x <= xx <= max_x && min_y <= yy
                    <= max_y,
            found ==> inked(src@, min_x as int, y_of_min_x) && inked(src@, max_x as int, y_of_max_x)
                && inked(src@, x_of_min_y, min_y as int) && inked(src@, x_of_max_y, max_y as int),
        decreases h - y,
    {
        let mut x: u32 = 0;
        while x < w
            invariant
                src.wf(),
                w == src.width,
                h == src.height,
                y < h,
                x <= w,
                !found ==> forall|xx: int, yy: int|
                    (yy < y || (yy == y && xx < x)) ==> !#[trigger] inked(src@, xx, yy),
                found ==> forall|xx: int, yy: int|
                    (yy < y || (yy == y && xx < x)) && #[trigger] inked(src@, xx, yy) ==> min_x
                        <= xx <= max_x && min_y <= yy <= max_y,
                found ==> inked(src@, min_x as int, y_of_min_x) && inked(
                    src@,
                    max_x as int,
                    y_of_max_x,
                ) && inked(src@, x_of_min_y, min_y as int) && inked(src@, x_of_max_y, max_y as int),
            decreases w - x,
        {
            let p = get_px(src, x, y);
            if p.3 > 0 {
                if !found {
                    found = true;
                    min_x = x;
                    max_x = x;
                    min_y = y;
                    max_y = y;
                    proof {
                        y_of_min_x = y as int;
                        y_of_max_x = y as int;
                        x_of_min_y = x as int;
                        x_of_max_y = x as int;
                    }
                } else {
                    if x < min_x {
                        min_x = x;
                        proof {
                            y_of_min_x = y as int;
                        }
                    }
                    if x > max_x {
                        max_x = x;
                        proof {
                            y_of_max_x = y as int;
                        }
                    }
                    if y < min_y {
                        min_y = y;
                        proof {
                            x_of_min_y = x as int;
                        }
                    }
                    if y > max_y {
                        max_y = y;
                        proof {
                            x_of_max_y = x as int;
                        }
                    }
                }
            }
            x = x + 1;
        }
        y = y + 1;
    }
    if found {
        assert(inked(src@, min_x as int, y_of_min_x));
        assert(inked(src@, max_x as int, y_of_max_x));
        assert(inked(src@, x_of_min_y, min_y as int));
        assert(inked(src@, x_of_max_y, max_y as int));
        Some((min_x, min_y, max_x, max_y))
    } else {
        None
    }
}

/// Pixel `(x, y)` of the centred cell, given the ink bounds of `src`.
fn centred_pixel(src: &PixelImage, bounds: Option<(u32, u32, u32, u32)>, x: u32, y: u32) -> (r: Px)
    requires
        src.wf(),
        bounds is None <==> !has_ink(src@),
        bounds matches Some(b) ==> is_ink_min_x(src@, b.0 as int) && is_ink_min_y(src@, b.1 as int)
            && is_ink_max_x(src@, b.2 as int) && is_ink_max_y(src@, b.3 as int),
    ensures
        r == centred_px(src@, x as int, y as int),
{
    match bounds {
        None => (0u8, 0u8, 0u8, 0u8),
        Some((x0, y0, x1, y1)) => {
            proof {
                lemma_ink_bounds_unique(src@, x0 as int, y0 as int, x1 as int, y1 as int);
            }
            let cw = x1 - x0 + 1;
            let ch = y1 - y0 + 1;
            let dx = if cw < CELL_WIDTH {
                (CELL_WIDTH - cw) / 2
            } else {
                0
            };
            let dy = if ch < CELL_HEIGHT {
                (CELL_HEIGHT - ch) / 2
            } else {
                0
            };
            if x >= dx && x - dx < cw && x - dx < CELL_WIDTH && y >= dy && y - dy < ch && y - dy
                < CELL_HEIGHT {
                get_px(src, x0 + (x - dx), y0 + (y - dy))
            } else {
                (0u8, 0u8, 0u8, 0u8)
            }
        },
    }
}

/// Crop an image to the bounding box of its ink and centre that box in an
/// empty animation cell.
pub fn center_content_in_cell(src: &PixelImage) -> (r: PixelImage)
    requires
        src.wf(),
    ensures
        r.wf(),
        r.width == CELL_WIDTH,
        r.height == CELL_HEIGHT,
        r@ == centred(src@),
        forall|x: int, y: int| r.in_bounds(x, y) ==> #[trigger] r.px(x, y) == centred_px(src@, x, y),
{
    let bounds = ink_bounds(src);
    let w = CELL_WIDTH;
    let h = CELL_HEIGHT;
    let total: usize = (w as usize) * (h as usize);
    let mut out: Vec<u8> = Vec::new();
    let mut q: usize = 0;
    while q < total
        invariant
            src.wf(),
            bounds is None <==> !has_ink(src@),
            bounds matches Some(b) ==> is_ink_min_x(src@, b.0 as int) && is_ink_min_y(
                src@,
                b.1 as int,
            ) && is_ink_max_x(src@, b.2 as int) && is_ink_max_y(src@, b.3 as int),
            w == CELL_WIDTH,
            h == CELL_HEIGHT,
            total == w * h,
            q <= total,
            out@.len() == q * 4,
            forall|i: int|
                0 <= i < q ==> #[trigger] quad(out@, i) == centred_px(
                    src@,
                    i % (w as int),
                    i / (w as int),
                ),
        decreases total - q,
    {
        proof {
            lemma_linear_px(w as int, h as int, q as int);
        }
        let x = (q % (w as usize)) as u32;
        let y = (q / (w as usize)) as u32;
        let p = centred_pixel(src, bounds, x, y);
        proof {
            lemma_push_quad(out@, q as int, p);
        }
        push_px(&mut out, p);
        q = q + 1;
    }
    let r = PixelImage { width: w, height: h, data: out };
    proof {
        assert forall|x: int, y: int| r.in_bounds(x, y) implies #[trigger] r.px(x, y)
            == centred_px(src@, x, y) by {
            lemma_px_is_quad(r@, x, y);
            lemma_built_px(w as int, h as int, r.data@, x, y);
            assert(quad(out@, y * w + x) == centred_px(src@, x, y));
        }
        let f = |x: int, y: int| centred_px(src@, x, y);
        assert forall|x: int, y: int| r@.in_bounds(x, y) implies #[trigger] r@.px(x, y) == f(x, y) by {
            assert(r.px(x, y) == centred_px(src@, x, y));
        }
        lemma_raster_from(r@, f);
    }
    r
}

/// Where a window of `cell` pixels starts when centred on `size` pixels
/// (at the start when the window is the larger).
pub open spec fn window_start(size: int, cell: int) -> int {
    if size > cell {
        (size - cell) / 2
    } else {
        0
    }
}

/// The smaller of two numbers.
pub open spec fn min_int(a: int, b: int) -> int {
    if a < b {
        a
    } else {
        b
    }
}

/// Pixel `(x, y)` of the raw frame cut from slot `i` when the strip is divided
/// into `n` equal slots: a cell-sized window centred on the slot (and
/// vertically on the strip), clipped to the slot and the strip.
pub open spec fn slot_px(strip: Raster, n: int, i: int, x: int, y: int) -> Px {
    let sw = (strip.width as int) / n;
    let sx = i * sw + window_start(sw, CELL_WIDTH as int) + x;
    let sy = window_start(strip.height as int, CELL_HEIGHT as int) + y;
    if sx < strip.width && sy < strip.height {
        strip.px(sx, sy)
    } else {
        clear_px()
    }
}

/// The raw frame cut from slot `i` of `n`.
pub open spec fn slot_raster(strip: Raster, n: int, i: int) -> Raster {
    raster_from(
        min_int((strip.width as int) / n, CELL_WIDTH as int) as u32,
        min_int(strip.height as int, CELL_HEIGHT as int) as u32,
        |x: int, y: int| slot_px(strip, n, i, x, y),
    )
}

/// Pixel `(x, y)` of the raw frame cut from slot `i` of `n`.
fn slot_pixel(strip: &PixelImage, n: u32, i: u32, x: u32, y: u32) -> (r: Px)
    requires
        strip.wf(),
        0 < n,
        i < n,
        x < min_int((strip.width as int) / (n as int), CELL_WIDTH as int),
        y < min_int(strip.height as int, CELL_HEIGHT as int),
    ensures
        r == slot_px(strip@, n as int, i as int, x as int, y as int),
{
    let sw = strip.width / n;
    let start_x = if sw > CELL_WIDTH {
        (sw - CELL_WIDTH) / 2
    } else {
        0
    };
    let start_y = if strip.height > CELL_HEIGHT {
        (strip.height - CELL_HEIGHT) / 2
    } else {
        0
    };
    assert(i * sw + sw <= strip.width) by (nonlinear_arith)
        requires
            0 <= i < n,
            sw == strip.width / n,
            n > 0,
    ;
    assert(0 <= i * sw) by (nonlinear_arith)
        requires
            0 <= i,
            0 <= sw,
    ;
    let sx = i * sw + start_x + x;
    let sy = start_y + y;
    if sx < strip.width && sy < strip.height {
        get_px(strip, sx, sy)
    } else {
        (0u8, 0u8, 0u8, 0u8)
    }
}

/// Cut the raw frame of slot `i` of `n` out of a strip.
fn cut_slot(strip: &PixelImage, n: u32, i: u32) -> (r: PixelImage)
    requires
        strip.wf(),
        0 < n,
        i < n,
    ensures
        r.wf(),
        r@ == slot_raster(strip@, n as int, i as int),
{
    let sw = strip.width / n;
    let w = if sw < CELL_WIDTH {
        sw
    } else {
        CELL_WIDTH
    };
    let h = if strip.height < CELL_HEIGHT {
        strip.height
    } else {
        CELL_HEIGHT
    };
    assert(w * h <= 192 * 208) by (nonlinear_arith)
        requires
            w <= 192,
            h <= 208,
    ;
    let total: usize = (w as usize) * (h as usize);
    let mut out: Vec<u8> = Vec::new();
    let mut q: usize = 0;
    while q < total
        invariant
            strip.wf(),
            0 < n,
            i < n,
            w == min_int((strip.width as int) / (n as int), CELL_WIDTH as int),
            h == min_int(strip.height as int, CELL_HEIGHT as int),
            total == w * h,
            q <= total,
            out@.len() == q * 4,
            forall|k: int|
                0 <= k < q ==> #[trigger] quad(out@, k) == slot_px(
                    strip@,
                    n as int,
                    i as int,
                    k % (w as int),
                    k / (w as int),
                ),
        decreases total - q,
    {
        assert(w > 0) by (nonlinear_arith)
            requires
                q < total,
                total == w * h,
        ;
        proof {
            lemma_linear_px(w as int, h as int, q as int);
        }
        let x = (q % (w as usize)) as u32;
        let y = (q / (w as usize)) as u32;
        let p = slot_pixel(strip, n, i, x, y);
        proof {
            lemma_push_quad(out@, q as int, p);
        }
        push_px(&mut out, p);
        q = q + 1;
    }
    let r = PixelImage { width: w, height: h, data: out };
    proof {
        let f = |x: int, y: int| slot_px(strip@, n as int, i as int, x, y);
        assert forall|x: int, y: int| r@.in_bounds(x, y) implies #[trigger] r@.px(x, y) == f(x, y) by {
            lemma_px_is_quad(r@, x, y);
            lemma_built_px(w as int, h as int, r.data@, x, y);
            assert(quad(out@, y * w + x) == f(x, y));
        }
        lemma_raster_from(r@, f);
    }
    r
}

/// Cut a strip into `frame_count` equal slots and centre the ink of each in
/// its own animation cell.
pub fn extract_frames(strip: &PixelImage, frame_count: u32) -> (r: Vec<PixelImage>)
    requires
        strip.wf(),
        frame_count > 0,
    ensures
        r@.len() == frame_count,
        forall|i: int|
            #![trigger r@[i]]
            0 <= i < frame_count ==> r@[i].wf() && r@[i]@ == centred(
                slot_raster(strip@, frame_count as int, i),
            ),
{
    let mut frames: Vec<PixelImage> = Vec::new();
    let mut i: u32 = 0;
    while i < frame_count
        invariant
            strip.wf(),
            frame_count > 0,
            i <= frame_count,
            frames@.len() == i,
            forall|j: int|
                #![trigger frames@[j]]
                0 <= j < i ==> frames@[j].wf() && frames@[j]@ == centred(
                    slot_raster(strip@, frame_count as int, j),
                ),
        decreases frame_count - i,
    {
        let raw = cut_slot(strip, frame_count, i);
        let frame = center_content_in_cell(&raw);
        frames.push(frame);
        i = i + 1;
    }
    frames
}

/// Width of the atlas: eight cells.
pub const ATLAS_WIDTH: u32 = 1536;

/// Height of the atlas: nine cells.
pub const ATLAS_HEIGHT: u32 = 1872;

/// The abstract values of the frames, row by row.
pub open spec fn frame_rasters(rows: Seq<Vec<PixelImage>>) -> Seq<Seq<Raster>> {
    rows.map_values(|row: Vec<PixelImage>| rasters(row@))
}

/// Pixel `(x, y)` of the atlas with frame `c` of row `r` copied into cell
/// `(c, r)` from its top-left corner, clipped to the cell; uncovered pixels
/// are transparent black.
pub open spec fn placed_px(rows: Seq<Seq<Raster>>, x: int, y: int) -> Px {
    let r = y / (CELL_HEIGHT as int);
    let c = x / (CELL_WIDTH as int);
    let lx = x % (CELL_WIDTH as int);
    let ly = y % (CELL_HEIGHT as int);
    if r < rows.len() && c < rows[r].len() && lx < rows[r][c].width && ly < rows[r][c].height {
        rows[r][c].px(lx, ly)
    } else {
        clear_px()
    }
}

/// A fully transparent pixel is made transparent black.
pub open spec fn cleared(p: Px) -> Px {
    if p.3 == 0 {
        clear_px()
    } else {
        p
    }
}

/// Pixel `(x, y)` of the composed atlas.
pub open spec fn atlas_px(rows: Seq<Seq<Raster>>, x: int, y: int) -> Px {
    cleared(placed_px(rows, x, y))
}

/// The composed atlas.
pub open spec fn atlas_raster(rows: Seq<Seq<Raster>>) -> Raster {
    raster_from(ATLAS_WIDTH, ATLAS_HEIGHT, |x: int, y: int| atlas_px(rows, x, y))
}

/// Rows past the ninth place no pixel: each of their first eight frames is empty.
pub open spec fn rows_fit_atlas(rows: Seq<Seq<Raster>>) -> bool {
    forall|r: int, c: int|
        ATLAS_ROWS <= r < rows.len() && 0 <= c < rows[r].len() && c < ATLAS_COLS ==> (
        #[trigger] rows[r][c]).width == 0 || rows[r][c].height == 0
}

/// The atlas is 1536 by 1872 pixels, and every frame lands in its cell: for
/// each of the nine rows and each of the first eight frames of a row, the
/// atlas pixel at `(c * 192 + x, r * 208 + y)` is the frame's pixel `(x, y)`
/// (as far as the frame reaches into the 192 by 208 cell), except that a
/// fully transparent pixel becomes transparent black.
pub proof fn atlas_places_every_frame(rows: Seq<Seq<Raster>>)
    ensures
        atlas_raster(rows).wf(),
        atlas_raster(rows).width == 1536,
        atlas_raster(rows).height == 1872,
        forall|r: int, c: int, x: int, y: int|
            #![trigger rows[r][c].px(x, y)]
            0 <= r < 9 && r < rows.len() && 0 <= c < 8 && c < rows[r].len() && 0 <= x < 192 && 0
                <= y < 208 && x < rows[r][c].width && y < rows[r][c].height ==> atlas_raster(
                rows,
            ).px(c * 192 + x, r * 208 + y) == if rows[r][c].px(x, y).3 == 0 {
                (0u8, 0u8, 0u8, 0u8)
            } else {
                rows[r][c].px(x, y)
            },
{
    lemma_raster_from_px(ATLAS_WIDTH, ATLAS_HEIGHT, |x: int, y: int| atlas_px(rows, x, y), 0, 0);
    assert forall|r: int, c: int, x: int, y: int|
        #![trigger rows[r][c].px(x, y)]
        0 <= r < 9 && r < rows.len() && 0 <= c < 8 && c < rows[r].len() && 0 <= x < 192 && 0 <= y
            < 208 && x < rows[r][c].width && y < rows[r][c].height implies atlas_raster(rows).px(
        c * 192 + x,
        r * 208 + y,
    ) == if rows[r][c].px(x, y).3 == 0 {
        (0u8, 0u8, 0u8, 0u8)
    } else {
        rows[r][c].px(x, y)
    } by {
        let ax = c * 192 + x;
        let ay = r * 208 + y;
        assert(ax / 192 == c && ax % 192 == x && ax < 1536) by (nonlinear_arith)
            requires
                ax == c * 192 + x,
                0 <= c < 8,
                0 <= x < 192,
        ;
        assert(ay / 208 == r && ay % 208 == y && ay < 1872) by (nonlinear_arith)
            requires
                ay == r * 208 + y,
                0 <= r < 9,
                0 <= y < 208,
        ;
        lemma_raster_from_px(
            ATLAS_WIDTH,
            ATLAS_HEIGHT,
            |x: int, y: int| atlas_px(rows, x, y),
            ax,
            ay,
        );
    }
}

fn atlas_pixel(all_rows: &Vec<Vec<PixelImage>>, x: u32, y: u32) -> (r: Px)
    requires
        forall|r: int, c: int|
            0 <= r < all_rows@.len() && 0 <= c < all_rows@[r]@.len() ==> #[trigger] all_rows@[r]@[c].wf(),
        x < ATLAS_WIDTH,
        y < ATLAS_HEIGHT,
    ensures
        r == atlas_px(frame_rasters(all_rows@), x as int, y as int),
{
    let ghost rows = frame_rasters(all_rows@);
    let row = (y / CELL_HEIGHT) as usize;
    let col = (x / CELL_WIDTH) as usize;
    let lx = x % CELL_WIDTH;
    let ly = y % CELL_HEIGHT;
    let mut p: Px = (0u8, 0u8, 0u8, 0u8);
    if row < all_rows.len() {
        let frames = &all_rows[row];
        assert(rows[row as int] == rasters(frames@));
        if col < frames.len() {
            let frame = &frames[col];
            assert(rows[row as int][col as int] == frame@);
            if lx < frame.width && ly < frame.height {
                p = get_px(frame, lx, ly);
            }
        }
    }
    if p.3 == 0 {
        (0u8, 0u8, 0u8, 0u8)
    } else {
        p
    }
}

/// Compose the animation frames into the atlas: frame `c` of row `r` goes to
/// cell `(c, r)` of the eight by nine grid, clipped to the cell, frames past
/// the eighth of a row are left out, and every fully transparent pixel ends
/// up transparent black.
pub fn compose_atlas(all_rows: &Vec<Vec<PixelImage>>) -> (r: PixelImage)
    requires
        forall|r: int, c: int|
            0 <= r < all_rows@.len() && 0 <= c < all_rows@[r]@.len() ==> #[trigger] all_rows@[r]@[c].wf(),
        rows_fit_atlas(frame_rasters(all_rows@)),
    ensures
        r.wf(),
        r.width == ATLAS_WIDTH,
        r.height == ATLAS_HEIGHT,
        r@ == atlas_raster(frame_rasters(all_rows@)),
        forall|x: int, y: int|
            r.in_bounds(x, y) ==> #[trigger] r.px(x, y) == atlas_px(frame_rasters(all_rows@), x, y),
        forall|x: int, y: int| r.in_bounds(x, y) && (#[trigger] r.px(x, y)).3 == 0 ==> r.px(x, y) == clear_px(),
{
    let ghost rows = frame_rasters(all_rows@);
    let w = ATLAS_WIDTH;
    let h = ATLAS_HEIGHT;
    let total: usize = (w as usize) * (h as usize);
    let mut out: Vec<u8> = Vec::new();
    let mut q: usize = 0;
    while q < total
        invariant
            forall|r: int, c: int|
                0 <= r < all_rows@.len() && 0 <= c < all_rows@[r]@.len() ==> #[trigger] all_rows@[r]@[c].wf(),
            rows == frame_rasters(all_rows@),
            w == ATLAS_WIDTH,
            h == ATLAS_HEIGHT,
            total == w * h,
            q <= total,
            out@.len() == q * 4,
            forall|i: int|
                0 <= i < q ==> #[trigger] quad(out@, i) == atlas_px(rows, i % (w as int), i / (w as int)),
        decreases total - q,
    {
        proof {
            lemma_linear_px(w as int, h as int, q as int);
        }
        let x = (q % (w as usize)) as u32;
        let y = (q / (w as usize)) as u32;
        let p = atlas_pixel(all_rows, x, y);
        proof {
            lemma_push_quad(out@, q as int, p);
        }
        push_px(&mut out, p);
        q = q + 1;
    }
    let r = PixelImage { width: w, height: h, data: out };
    proof {
        let f = |x: int, y: int| atlas_px(rows, x, y);
        assert forall|x: int, y: int| r@.in_bounds(x, y) implies #[trigger] r@.px(x, y) == f(x, y) by {
            lemma_px_is_quad(r@, x, y);
            lemma_built_px(w as int, h as int, r.data@, x, y);
            assert(quad(out@, y * w + x) == f(x, y));
        }
        lemma_raster_from(r@, f);
        assert forall|x: int, y: int| r.in_bounds(x, y) implies #[trigger] r.px(x, y) == atlas_px(rows, x, y) by {
            assert(r@.px(x, y) == f(x, y));
        }
    }
    r
}

} // verus!
