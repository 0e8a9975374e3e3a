use aipet::codec::{
    concatenate_strips, concatenate_strips_labeled, encode_atlas_png, encode_atlas_webp,
    load_image_from_bytes, mirror_strip, process_strip, render_atlas, STRIPS_DO_NOT_FIT,
};
use aipet::image_ops::{
    center_content_in_cell, color_distance_sq, compose_atlas, concat_images,
    detect_background_color, extract_frames, flip_horizontal, get_px, parse_hex_color,
    remove_chroma_key, PixelImage,
};

fn solid(w: u32, h: u32, p: [u8; 4]) -> PixelImage {
    let mut data = Vec::new();
    for _ in 0..(w * h) {
        data.extend_from_slice(&p);
    }
    PixelImage { width: w, height: h, data }
}

fn set(img: &mut PixelImage, x: u32, y: u32, p: [u8; 4]) {
    let b = ((y * img.width + x) * 4) as usize;
    img.data[b..b + 4].copy_from_slice(&p);
}

fn px(img: &PixelImage, x: u32, y: u32) -> [u8; 4] {
    let (r, g, b, a) = get_px(img, x, y);
    [r, g, b, a]
}

fn png(img: &PixelImage) -> Vec<u8> {
    let buf = image::RgbaImage::from_raw(img.width, img.height, img.data.clone()).unwrap();
    let mut out = std::io::Cursor::new(Vec::new());
    image::DynamicImage::ImageRgba8(buf)
        .write_to(&mut out, image::ImageFormat::Png)
        .unwrap();
    out.into_inner()
}

const MAGENTA: [u8; 4] = [255, 0, 255, 255];
const RED: [u8; 4] = [200, 10, 10, 255];

#[test]
fn hex_colors() {
    assert_eq!(parse_hex_color("#FF00FF"), (255, 0, 255));
    assert_eq!(parse_hex_color("00ff7f"), (0, 255, 127));
    assert_eq!(parse_hex_color("#12"), (255, 0, 255));
    assert_eq!(parse_hex_color("##zz1020"), (255, 16, 32));
}

#[test]
fn color_distances() {
    assert_eq!(color_distance_sq(0, 0, 0, 3, 4, 0), 25);
    assert_eq!(color_distance_sq(255, 0, 255, 255, 0, 255), 0);
    assert_eq!(color_distance_sq(0, 0, 0, 255, 255, 255), 195075);
}

#[test]
fn background_is_detected_from_the_border() {
    let mut img = solid(16, 16, [250, 5, 250, 255]);
    set(&mut img, 8, 8, RED);
    assert_eq!(detect_background_color(&img), Some((250, 5, 250)));
    assert_eq!(detect_background_color(&solid(3, 3, MAGENTA)), None);
    let mut noisy = solid(8, 8, [0, 0, 0, 0]);
    set(&mut noisy, 0, 0, RED);
    assert_eq!(detect_background_color(&noisy), None);
}

#[test]
fn chroma_key_removal_clears_the_background() {
    let mut img = solid(8, 8, MAGENTA);
    set(&mut img, 3, 4, RED);
    let out = remove_chroma_key(&img, "#FF00FF");
    assert_eq!((out.width, out.height), (8, 8));
    assert_eq!(px(&out, 0, 0), [0, 0, 0, 0]);
    assert_eq!(px(&out, 3, 4), RED);
}

#[test]
fn chroma_key_falls_back_to_the_given_colour() {
    let mut img = solid(2, 2, [0, 255, 0, 255]);
    set(&mut img, 1, 1, [0, 250, 0, 255]);
    let out = remove_chroma_key(&img, "#00FF00");
    assert_eq!(px(&out, 0, 0), [0, 0, 0, 0]);
    assert_eq!(px(&out, 1, 1), [0, 0, 0, 0]);
    let kept = remove_chroma_key(&img, "#FF00FF");
    assert_eq!(px(&kept, 0, 0), [0, 255, 0, 255]);
}

#[test]
fn flipping_mirrors_columns() {
    let mut img = solid(3, 2, [0, 0, 0, 255]);
    set(&mut img, 0, 1, RED);
    let f = flip_horizontal(&img);
    assert_eq!(px(&f, 2, 1), RED);
    assert_eq!(px(&f, 0, 1), [0, 0, 0, 255]);
    let back = flip_horizontal(&f);
    assert_eq!(back.data, img.data);
}

#[test]
fn images_are_joined_side_by_side() {
    let a = solid(2, 3, RED);
    let b = solid(1, 2, MAGENTA);
    let j = concat_images(&vec![a, b]);
    assert_eq!((j.width, j.height), (3, 3));
    assert_eq!(px(&j, 1, 2), RED);
    assert_eq!(px(&j, 2, 0), MAGENTA);
    assert_eq!(px(&j, 2, 2), [0, 0, 0, 0]);
}

#[test]
fn content_is_centred_in_a_cell() {
    let mut img = solid(10, 10, [0, 0, 0, 0]);
    set(&mut img, 1, 2, RED);
    set(&mut img, 2, 2, RED);
    let cell = center_content_in_cell(&img);
    assert_eq!((cell.width, cell.height), (192, 208));
    assert_eq!(px(&cell, 95, 103), RED);
    assert_eq!(px(&cell, 96, 103), RED);
    assert_eq!(px(&cell, 94, 103), [0, 0, 0, 0]);
    let empty = center_content_in_cell(&solid(4, 4, [9, 9, 9, 0]));
    assert!(empty.data.iter().all(|&b| b == 0));
}

#[test]
fn strips_are_cut_into_frames() {
    let mut strip = solid(384, 208, [0, 0, 0, 0]);
    set(&mut strip, 10, 10, RED);
    set(&mut strip, 200, 50, MAGENTA);
    let frames = extract_frames(&strip, 2);
    assert_eq!(frames.len(), 2);
    assert_eq!(px(&frames[0], 95, 103), RED);
    assert_eq!(px(&frames[1], 95, 103), MAGENTA);
}

#[test]
fn frames_are_placed_into_the_atlas() {
    let f = solid(192, 208, RED);
    let g = solid(10, 10, [1, 2, 3, 0]);
    let atlas = compose_atlas(&vec![vec![f.clone()], vec![g, f.clone()]]);
    assert_eq!((atlas.width, atlas.height), (1536, 1872));
    assert_eq!(px(&atlas, 0, 0), RED);
    assert_eq!(px(&atlas, 191, 207), RED);
    assert_eq!(px(&atlas, 192, 0), [0, 0, 0, 0]);
    assert_eq!(px(&atlas, 5, 210), [0, 0, 0, 0]);
    assert_eq!(px(&atlas, 200, 300), RED);
}

#[test]
fn png_strips_are_joined_and_decoded_back() {
    let a = png(&solid(4, 2, RED));
    let b = png(&solid(2, 2, MAGENTA));
    let joined = concatenate_strips(&vec![a, b]).unwrap();
    let img = load_image_from_bytes(&joined).unwrap();
    assert_eq!((img.width, img.height), (6, 2));
    assert_eq!(px(&img, 3, 1), RED);
    assert_eq!(px(&img, 5, 0), MAGENTA);
}

#[test]
fn joining_reports_errors() {
    let e = concatenate_strips(&vec![png(&solid(2, 2, RED)), b"nope".to_vec()]).unwrap_err();
    assert!(e.starts_with("load batch image: "), "{e}");
    let e = concatenate_strips_labeled(&vec![b"x".to_vec()], "加载批次图片失败: ", "拼接条带编码失败: ")
        .unwrap_err();
    assert!(e.starts_with("加载批次图片失败: "), "{e}");
    let tall_second = vec![png(&solid(2, 2, RED)), png(&solid(2, 3, RED))];
    assert_eq!(concatenate_strips(&tall_second).unwrap_err(), STRIPS_DO_NOT_FIT);
}

#[test]
fn mirrored_strip_is_flipped() {
    let mut img = solid(3, 1, [0, 0, 0, 255]);
    set(&mut img, 0, 0, RED);
    let m = mirror_strip(&png(&img)).unwrap();
    let back = load_image_from_bytes(&m).unwrap();
    assert_eq!(px(&back, 2, 0), RED);
    assert!(mirror_strip(b"garbage").unwrap_err().starts_with("load running-right: "));
}

#[test]
fn loading_garbage_fails_with_message() {
    let e = load_image_from_bytes(b"not an image").unwrap_err();
    assert!(e.starts_with("加载图片失败: "), "{e}");
}

#[test]
fn a_strip_becomes_frames() {
    let mut strip = solid(192 * 4, 208, MAGENTA);
    set(&mut strip, 20, 30, RED);
    let frames = process_strip(&png(&strip), 4).unwrap();
    assert_eq!(frames.len(), 4);
    assert_eq!(px(&frames[0], 95, 103), RED);
    assert!(frames[1].data.iter().all(|&b| b == 0));
}

#[test]
fn atlas_encodings_decode_to_the_atlas() {
    let atlas = compose_atlas(&vec![vec![solid(192, 208, RED)]]);
    let webp = encode_atlas_webp(&atlas);
    assert_eq!(&webp[0..4], b"RIFF");
    let decoded = load_image_from_bytes(&webp).unwrap();
    assert_eq!((decoded.width, decoded.height), (1536, 1872));
    assert_eq!(px(&decoded, 10, 10), RED);
    let png_bytes = encode_atlas_png(&atlas).unwrap();
    let decoded = load_image_from_bytes(&png_bytes).unwrap();
    assert_eq!(decoded.data, atlas.data);
}

#[test]
fn rendering_reports_undecodable_strips() {
    let e = render_atlas(&vec![b"bad".to_vec()]).err().unwrap();
    assert!(e.starts_with("加载图片失败: "), "{e}");
}

#[test]
fn jpeg_images_load() {
    let rgb = image::RgbImage::from_pixel(4, 3, image::Rgb([200, 100, 50]));
    let mut out = std::io::Cursor::new(Vec::new());
    image::DynamicImage::ImageRgb8(rgb).write_to(&mut out, image::ImageFormat::Jpeg).unwrap();
    let img = load_image_from_bytes(&out.into_inner()).unwrap();
    assert_eq!((img.width, img.height), (4, 3));
    assert_eq!(img.data.len(), 4 * 3 * 4);
    assert_eq!(img.data[3], 255);
}

#[test]
fn hex_colour_read_by_bytes() {
    // A two-byte character is one piece, which is no hexadecimal number.
    assert_eq!(parse_hex_color("#é00FF"), (255, 0, 255));
    assert_eq!(parse_hex_color("#12é456"), (0x12, 0, 0x45));
    // Fewer than six bytes after the `#` signs: magenta.
    assert_eq!(parse_hex_color("#12é4"), (255, 0, 255));
    assert_eq!(parse_hex_color("##00ff00"), (0, 255, 0));
    assert_eq!(parse_hex_color("+f+0+a"), (15, 0, 10));
}

#[test]
fn detected_background_needs_no_readable_key() {
    // The border gives the background, so the key text is never read.
    let img = solid(8, 8, [0, 255, 0, 255]);
    let out = remove_chroma_key(&img, "ab€€");
    assert_eq!(px(&out, 0, 0), [0, 0, 0, 0]);
    assert_eq!(px(&out, 4, 4), [0, 0, 0, 0]);
}
