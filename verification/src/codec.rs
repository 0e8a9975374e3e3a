//! Decoding and encoding images: PNG and WebP through the `image` and `webp`
//! crates, and the byte-level steps of the pipeline built on them (joining
//! batch strips, mirroring a strip, encoding the atlas).
use vstd::prelude::*;
use crate::image_ops::{
    PixelImage, Raster, ATLAS_HEIGHT, ATLAS_WIDTH, atlas_raster, centred, chroma_removed,
    compose_atlas, concat_images, extract_frames, flip_horizontal, fits_side_by_side,
    frame_rasters, is_ascii_text, mirrored, rasters, remove_chroma_key, side_by_side,
    slot_raster, widths_from,
};
use crate::types::{CHROMA_KEY, row_frame_count, row_frames, spec_row_count};
use crate::text::{join_message, starts_with, string_of};

verus! {

#[verifier::external_type_specification]
#[verifier::external_body]
pub struct ExImageError(image::ImageError);

/// What `image::load_from_memory` followed by `DynamicImage::to_rgba8` gives
/// for the bytes: width, height and the raw RGBA bytes, or nothing when the
/// bytes do not decode.
pub uninterp spec fn decoded_rgba8(bytes: Seq<u8>) -> Option<(u32, u32, Seq<u8>)>;

/// The bytes that `DynamicImage::write_to` with `ImageFormat::Png` writes for
/// an RGBA image of the given size and raw bytes, or nothing when it fails.
pub uninterp spec fn png_encoding(width: u32, height: u32, data: Seq<u8>) -> Option<Seq<u8>>;

/// The bytes of `webp::Encoder::from_rgba(..).encode_lossless()` for an RGBA
/// image of the given size and raw bytes.
pub uninterp spec fn webp_lossless_encoding(width: u32, height: u32, data: Seq<u8>) -> Seq<u8>;

/// `image::load_from_memory` and `DynamicImage::to_rgba8`. The result is the
/// decoded raster; a decoder fills a buffer of exactly `width * height`
/// pixels, and the conversion to RGBA8 keeps that size.
#[verifier::external_body]
pub(crate) fn decode_rgba8(bytes: &[u8]) -> (r: Result<PixelImage, image::ImageError>)
    ensures
        match r {
            Ok(img) => decoded_rgba8(bytes@) == Some((img.width, img.height, img.data@))
                && img.wf(),
            Err(_) => decoded_rgba8(bytes@) is None,
        },
{
    match image::load_from_memory(bytes) {
        Ok(decoded) => {
            let rgba = decoded.to_rgba8();
            let (width, height) = rgba.dimensions();
            Ok(PixelImage { width, height, data: rgba.into_raw() })
        },
        Err(e) => Err(e),
    }
}

/// `DynamicImage::write_to` into memory with `ImageFormat::Png`, for an RGBA
/// image (`RgbaImage::from_raw` accepts a buffer of exactly `width * height`
/// pixels).
#[verifier::external_body]
pub(crate) fn encode_png(img: &PixelImage) -> (r: Result<Vec<u8>, image::ImageError>)
    requires
        img.wf(),
    ensures
        match r {
            Ok(bytes) => png_encoding(img.width, img.height, img.data@) == Some(bytes@),
            Err(_) => png_encoding(img.width, img.height, img.data@) is None,
        },
{
    let buffer = image::RgbaImage::from_raw(img.width, img.height, img.data.clone()).unwrap();
    let mut out = std::io::Cursor::new(Vec::new());
    match image::DynamicImage::ImageRgba8(buffer).write_to(&mut out, image::ImageFormat::Png) {
        Ok(()) => Ok(out.into_inner()),
        Err(e) => Err(e),
    }
}

/// `webp::Encoder::from_rgba(..).encode_lossless()`. The encoder unwraps
/// libwebp's status, which fails for a side of 0 or above 16383 pixels.
#[verifier::external_body]
fn encode_webp_lossless(img: &PixelImage) -> (r: Vec<u8>)
    requires
        img.wf(),
        0 < img.width <= 16383,
        0 < img.height <= 16383,
    ensures
        r@ == webp_lossless_encoding(img.width, img.height, img.data@),
{
    let encoder = webp::Encoder::from_rgba(&img.data, img.width, img.height);
    encoder.encode_lossless().to_vec()
}

/// The `Display` text of an `image::ImageError`.
#[verifier::external_body]
pub(crate) fn image_error_text(e: &image::ImageError) -> String {
    format!("{e}")
}

/// The raster of a decoded image.
pub open spec fn raster_of(t: (u32, u32, Seq<u8>)) -> Raster {
    Raster { width: t.0, height: t.1, data: t.2 }
}

/// Decode PNG or WebP bytes into an RGBA image.
pub fn load_image_from_bytes(data: &[u8]) -> (r: Result<PixelImage, String>)
    ensures
        match r {
            Ok(img) => img.wf() && decoded_rgba8(data@) == Some((img.width, img.height, img.data@)),
            Err(e) => decoded_rgba8(data@) is None && starts_with(e@, "加载图片失败: "@),
        },
{
    match decode_rgba8(data) {
        Ok(img) => Ok(img),
        Err(e) => {
            let text = image_error_text(&e);
            let msg = join_message("加载图片失败: ", text.as_str());
            proof {
                crate::text::lemma_starts_with_concat("加载图片失败: "@, text@);
            }
            Err(msg)
        },
    }
}

/// The byte contents of a list of buffers.
pub open spec fn byte_seqs(v: Seq<Vec<u8>>) -> Seq<Seq<u8>> {
    v.map_values(|b: Vec<u8>| b@)
}

/// Every buffer decodes as an image.
pub open spec fn all_decode(bs: Seq<Seq<u8>>) -> bool {
    forall|i: int| 0 <= i < bs.len() ==> #[trigger] decoded_rgba8(bs[i]) is Some
}

/// The decoded rasters of buffers that all decode.
pub open spec fn decoded_rasters(bs: Seq<Seq<u8>>) -> Seq<Raster> {
    bs.map_values(|b: Seq<u8>| raster_of(decoded_rgba8(b).unwrap()))
}

/// The PNG of the batch strips placed side by side, when they all decode,
/// fit together, and the joined image encodes.
pub open spec fn joined_strip_png(bs: Seq<Seq<u8>>) -> Option<Seq<u8>> {
    if all_decode(bs) && fits_side_by_side(decoded_rasters(bs)) {
        let joined = side_by_side(decoded_rasters(bs));
        png_encoding(joined.width, joined.height, joined.data)
    } else {
        None
    }
}

/// Batch strips that decode but cannot be placed side by side.
pub const STRIPS_DO_NOT_FIT: &'static str = "batch images do not fit side by side";

/// Join the PNG strips of the batches of one row, left to right, into one
/// PNG strip as tall as the first batch.
pub fn concatenate_strips(strips: &Vec<Vec<u8>>) -> (r: Result<Vec<u8>, String>)
    requires
        strips@.len() > 0,
    ensures
        r is Ok <==> joined_strip_png(byte_seqs(strips@)) is Some,
        r matches Ok(b) ==> joined_strip_png(byte_seqs(strips@)) == Some(b@),
        r matches Err(e) ==> {
            let bs = byte_seqs(strips@);
            if !all_decode(bs) {
                starts_with(e@, "load batch image: "@)
            } else if !fits_side_by_side(decoded_rasters(bs)) {
                e@ == STRIPS_DO_NOT_FIT@
            } else {
                starts_with(e@, "encode strip: "@)
            }
        },
{
    concatenate_strips_labeled(strips, "load batch image: ", "encode strip: ")
}

/// `concatenate_strips`, with the given texts in front of a decoding error
/// and of an encoding error.
pub fn concatenate_strips_labeled(strips: &Vec<Vec<u8>>, load_label: &str, encode_label: &str) -> (r:
    Result<Vec<u8>, String>)
    requires
        strips@.len() > 0,
    ensures
        r is Ok <==> joined_strip_png(byte_seqs(strips@)) is Some,
        r matches Ok(b) ==> joined_strip_png(byte_seqs(strips@)) == Some(b@),
        r matches Err(e) ==> {
            let bs = byte_seqs(strips@);
            if !all_decode(bs) {
                starts_with(e@, load_label@)
            } else if !fits_side_by_side(decoded_rasters(bs)) {
                e@ == STRIPS_DO_NOT_FIT@
            } else {
                starts_with(e@, encode_label@)
            }
        },
{
    let ghost bs = byte_seqs(strips@);
    let n = strips.len();
    let mut images: Vec<PixelImage> = Vec::new();
    let mut i: usize = 0;
    while i < n
        invariant
            n == strips@.len(),
            bs == byte_seqs(strips@),
            i <= n,
            images@.len() == i,
            forall|j: int| 0 <= j < i ==> #[trigger] decoded_rgba8(bs[j]) is Some,
            forall|j: int|
                0 <= j < i ==> #[trigger] images@[j]@ == raster_of(decoded_rgba8(bs[j]).unwrap())
                    && images@[j].wf(),
        decreases n - i,
    {
        assert(bs[i as int] == strips@[i as int]@);
        match decode_rgba8(strips[i].as_slice()) {
            Ok(img) => {
                images.push(img);
            },
            Err(e) => {
                let text = image_error_text(&e);
                let msg = join_message(load_label, text.as_str());
                proof {
                    crate::text::lemma_starts_with_concat(load_label@, text@);
                    assert(!(decoded_rgba8(bs[i as int]) is Some));
                }
                return Err(msg);
            },
        }
        i = i + 1;
    }
    assert(all_decode(bs));
    assert(rasters(images@) =~= decoded_rasters(bs));
    if !fits_together(&images) {
        return Err(string_of(STRIPS_DO_NOT_FIT));
    }
    let joined = concat_images(&images);
    match encode_png(&joined) {
        Ok(bytes) => Ok(bytes),
        Err(e) => {
            let text = image_error_text(&e);
            let msg = join_message(encode_label, text.as_str());
            proof {
                crate::text::lemma_starts_with_concat(encode_label@, text@);
            }
            Err(msg)
        },
    }
}

/// Whether the images can be placed side by side (see `fits_side_by_side`).
pub fn fits_together(images: &Vec<PixelImage>) -> (r: bool)
    ensures
        r == fits_side_by_side(rasters(images@)),
{
    let ghost rs = rasters(images@);
    let n = images.len();
    if n == 0 {
        return false;
    }
    let h = images[0].height;
    let mut total: u64 = 0;
    let mut k: usize = n;
    while k > 0
        invariant
            n == images@.len(),
            rs == rasters(images@),
            n > 0,
            h == rs[0].height,
            k <= n,
            total == widths_from(rs, k as int),
            total <= u32::MAX,
            forall|j: int| k <= j < n ==> #[trigger] rs[j].height <= h,
        decreases k,
    {
        let img = &images[k - 1];
        assert(rs[k - 1] == images@[k - 1]@);
        if img.height > h {
            assert(rs[k - 1].height > rs[0].height);
            return false;
        }
        if total + (img.width as u64) > (u32::MAX as u64) {
            proof {
                crate::image_ops::lemma_widths_from_mono(rs, 0, k - 1);
            }
            return false;
        }
        total = total + img.width as u64;
        k = k - 1;
    }
    let w = total as usize;
    match w.checked_mul(h as usize) {
        Some(area) => match area.checked_mul(4) {
            Some(_) => true,
            None => false,
        },
        None => {
            proof {
                assert(w * h * 4 > usize::MAX) by (nonlinear_arith)
                    requires
                        w * h > usize::MAX,
                ;
            }
            false
        },
    }
}

/// The PNG of a strip mirrored left to right, when it decodes and the mirror
/// encodes.
pub open spec fn mirrored_strip_png(bytes: Seq<u8>) -> Option<Seq<u8>> {
    match decoded_rgba8(bytes) {
        Some(t) => {
            let m = mirrored(raster_of(t));
            png_encoding(m.width, m.height, m.data)
        },
        None => None,
    }
}

/// Mirror the running-right strip into the running-left one: decode the PNG,
/// flip it left to right and encode it as PNG again.
pub fn mirror_strip(bytes: &[u8]) -> (r: Result<Vec<u8>, String>)
    ensures
        r is Ok <==> mirrored_strip_png(bytes@) is Some,
        r matches Ok(b) ==> mirrored_strip_png(bytes@) == Some(b@),
        r matches Err(e) ==> if decoded_rgba8(bytes@) is None {
            starts_with(e@, "load running-right: "@)
        } else {
            starts_with(e@, "encode mirror: "@)
        },
{
    mirror_strip_labeled(bytes, "load running-right: ", "encode mirror: ")
}

/// `mirror_strip`, with the given texts in front of a decoding error and of
/// an encoding error.
pub fn mirror_strip_labeled(bytes: &[u8], load_label: &str, encode_label: &str) -> (r: Result<
    Vec<u8>,
    String,
>)
    ensures
        r is Ok <==> mirrored_strip_png(bytes@) is Some,
        r matches Ok(b) ==> mirrored_strip_png(bytes@) == Some(b@),
        r matches Err(e) ==> if decoded_rgba8(bytes@) is None {
            starts_with(e@, load_label@)
        } else {
            starts_with(e@, encode_label@)
        },
{
    let img = match decode_rgba8(bytes) {
        Ok(img) => img,
        Err(e) => {
            let text = image_error_text(&e);
            let msg = join_message(load_label, text.as_str());
            proof {
                crate::text::lemma_starts_with_concat(load_label@, text@);
            }
            return Err(msg);
        },
    };
    assert(img@ == raster_of(decoded_rgba8(bytes@).unwrap()));
    let flipped = flip_horizontal(&img);
    match encode_png(&flipped) {
        Ok(out) => Ok(out),
        Err(e) => {
            let text = image_error_text(&e);
            let msg = join_message(encode_label, text.as_str());
            proof {
                crate::text::lemma_starts_with_concat(encode_label@, text@);
            }
            Err(msg)
        },
    }
}

/// The atlas as a lossless WebP.
pub fn encode_atlas_webp(atlas: &PixelImage) -> (r: Vec<u8>)
    requires
        atlas.wf(),
        0 < atlas.width <= 16383,
        0 < atlas.height <= 16383,
    ensures
        r@ == webp_lossless_encoding(atlas.width, atlas.height, atlas.data@),
{
    encode_webp_lossless(atlas)
}

/// The atlas as a PNG.
pub fn encode_atlas_png(atlas: &PixelImage) -> (r: Result<Vec<u8>, String>)
    requires
        atlas.wf(),
    ensures
        r is Ok <==> png_encoding(atlas.width, atlas.height, atlas.data@) is Some,
        r matches Ok(b) ==> png_encoding(atlas.width, atlas.height, atlas.data@) == Some(b@),
        r matches Err(e) ==> starts_with(e@, "写入 PNG 失败: "@),
{
    match encode_png(atlas) {
        Ok(out) => Ok(out),
        Err(e) => {
            let text = image_error_text(&e);
            let msg = join_message("写入 PNG 失败: ", text.as_str());
            proof {
                crate::text::lemma_starts_with_concat("写入 PNG 失败: "@, text@);
            }
            Err(msg)
        },
    }
}

/// The animation frames cut from one row's strip: background removed, then
/// `n` equal slots each centred in a cell.
pub open spec fn strip_frames(strip: Raster, n: int) -> Seq<Raster> {
    let keyed = chroma_removed(strip, CHROMA_KEY@);
    Seq::new(n as nat, |i: int| centred(slot_raster(keyed, n, i)))
}

/// The atlas made from the row strips, in row order.
pub open spec fn atlas_from_strips(bs: Seq<Seq<u8>>) -> Raster {
    atlas_raster(
        Seq::new(
            bs.len(),
            |i: int| strip_frames(raster_of(decoded_rgba8(bs[i]).unwrap()), row_frames(i) as int),
        ),
    )
}

/// Decode one row's strip, remove its background and cut it into frames.
pub fn process_strip(bytes: &[u8], frame_count: u32) -> (r: Result<Vec<PixelImage>, String>)
    requires
        frame_count > 0,
    ensures
        r is Ok <==> decoded_rgba8(bytes@) is Some,
        r matches Ok(frames) ==> (forall|i: int| 0 <= i < frames@.len() ==> #[trigger] frames@[i].wf())
            && rasters(frames@) == strip_frames(
            raster_of(decoded_rgba8(bytes@).unwrap()),
            frame_count as int,
        ),
        r matches Err(e) ==> starts_with(e@, "加载图片失败: "@),
{
    let img = match load_image_from_bytes(bytes) {
        Ok(img) => img,
        Err(e) => {
            return Err(e);
        },
    };
    proof {
        reveal_strlit("#FF00FF");
        assert(is_ascii_text(CHROMA_KEY@));
        crate::image_ops::lemma_ascii_color_readable(CHROMA_KEY@);
    }
    let cleaned = remove_chroma_key(&img, CHROMA_KEY);
    let frames = extract_frames(&cleaned, frame_count);
    assert forall|i: int| 0 <= i < frame_count implies #[trigger] rasters(frames@)[i]
        == strip_frames(img@, frame_count as int)[i] by {
        assert(frames@[i]@ == centred(slot_raster(cleaned@, frame_count as int, i)));
    }
    assert(rasters(frames@) =~= strip_frames(img@, frame_count as int));
    Ok(frames)
}

/// The atlas images written into a pet package.
pub struct RenderedAtlas {
    pub webp: Vec<u8>,
    pub png: Vec<u8>,
}

/// Turn the row strips into the atlas: process every strip, check the frame
/// counts, compose the frames and encode the atlas as lossless WebP and PNG.
pub fn render_atlas(strips: &Vec<Vec<u8>>) -> (r: Result<RenderedAtlas, String>)
    requires
        strips@.len() <= spec_row_count(),
    ensures
        ({
            let bs = byte_seqs(strips@);
            let atlas = atlas_from_strips(bs);
            &&& r is Ok <==> all_decode(bs) && png_encoding(
                ATLAS_WIDTH,
                ATLAS_HEIGHT,
                atlas.data,
            ) is Some
            &&& r matches Ok(a) ==> a.webp@ == webp_lossless_encoding(
                ATLAS_WIDTH,
                ATLAS_HEIGHT,
                atlas.data,
            ) && png_encoding(ATLAS_WIDTH, ATLAS_HEIGHT, atlas.data) == Some(a.png@)
            &&& r matches Err(e) ==> if !all_decode(bs) {
                starts_with(e@, "加载图片失败: "@)
            } else {
                starts_with(e@, "写入 PNG 失败: "@)
            }
        }),
{
    let ghost bs = byte_seqs(strips@);
    let ghost rows_spec = Seq::new(
        bs.len(),
        |i: int| strip_frames(raster_of(decoded_rgba8(bs[i]).unwrap()), row_frames(i) as int),
    );
    let n = strips.len();
    let mut all_rows: Vec<Vec<PixelImage>> = Vec::new();
    let mut counts: Vec<usize> = Vec::new();
    let mut i: usize = 0;
    while i < n
        invariant
            n == strips@.len(),
            n <= spec_row_count(),
            bs == byte_seqs(strips@),
            rows_spec.len() == bs.len(),
            forall|k: int|
                0 <= k < bs.len() ==> #[trigger] rows_spec[k] == strip_frames(
                    raster_of(decoded_rgba8(bs[k]).unwrap()),
                    row_frames(k) as int,
                ),
            i <= n,
            all_rows@.len() == i,
            counts@.len() == i,
            forall|k: int| 0 <= k < i ==> #[trigger] decoded_rgba8(bs[k]) is Some,
            forall|k: int| 0 <= k < i ==> #[trigger] rasters(all_rows@[k]@) == rows_spec[k],
            forall|k: int| 0 <= k < i ==> #[trigger] counts@[k] == all_rows@[k]@.len(),
            forall|r: int, c: int|
                0 <= r < all_rows@.len() && 0 <= c < all_rows@[r]@.len() ==> #[trigger] all_rows@[
                    r
                ]@[c].wf(),
        decreases n - i,
    {
        assert(bs[i as int] == strips@[i as int]@);
        let frame_count = row_frame_count(i);
        match process_strip(strips[i].as_slice(), frame_count) {
            Ok(frames) => {
                counts.push(frames.len());
                all_rows.push(frames);
            },
            Err(e) => {
                assert(!(decoded_rgba8(bs[i as int]) is Some));
                return Err(e);
            },
        }
        i = i + 1;
    }
    assert(all_decode(bs));
    assert forall|k: int| 0 <= k < counts@.len() implies #[trigger] counts@[k] == row_frames(k) by {
        assert(rasters(all_rows@[k]@) == rows_spec[k]);
        assert(rasters(all_rows@[k]@).len() == all_rows@[k]@.len());
    }
    match crate::creation::check_frame_counts(&counts) {
        Ok(()) => {},
        Err(m) => {
            assert(false);
        },
    }
    assert(frame_rasters(all_rows@) =~= rows_spec);
    let atlas = compose_atlas(&all_rows);
    let webp = encode_atlas_webp(&atlas);
    match encode_atlas_png(&atlas) {
        Ok(png) => Ok(RenderedAtlas { webp, png }),
        Err(e) => Err(e),
    }
}

} // verus!
