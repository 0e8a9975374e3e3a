use aipet::image_ops::PixelImage;
use aipet::ai_config::AiApiConfig;
use aipet::ai_reply::{
    check_client_config, dashscope_reply_image, decode_image_base64, encode_image_base64,
    endpoint_url, gemini_reply_image, image_from_value, openai_reply_image, png_data_url,
    provider_kind, ImageSize, ProviderKind, ReplyImage,
};
use aipet::provider_size::{
    dashscope_gen_size, encode_scaled_png, ensure_dashscope_min_input, openai_gen_size,
    resize_image_if_needed,
};

fn inline(r: Result<ReplyImage, String>) -> Vec<u8> {
    match r {
        Ok(ReplyImage::Inline(v)) => v,
        other => panic!("expected inline image, got {:?}", other),
    }
}

#[test]
fn provider_names_select_api() {
    assert_eq!(provider_kind("dashscope"), ProviderKind::DashScope);
    assert_eq!(provider_kind("gemini"), ProviderKind::Gemini);
    assert_eq!(provider_kind("openai"), ProviderKind::OpenAi);
    assert_eq!(provider_kind("Gemini"), ProviderKind::OpenAi);
    assert_eq!(provider_kind(""), ProviderKind::OpenAi);
}

#[test]
fn client_needs_api_key() {
    let mut config = AiApiConfig::default();
    config.api_key = String::new();
    assert_eq!(
        check_client_config(&config),
        Err("API Key 未配置，请在设置中配置 AI API Key".to_string())
    );
    config.api_key = "sk-test".to_string();
    assert_eq!(check_client_config(&config), Ok(()));
}

#[test]
fn endpoints_per_provider() {
    assert_eq!(
        endpoint_url(ProviderKind::DashScope, "https://dashscope.aliyuncs.com/api/v1", "m", false),
        "https://dashscope.aliyuncs.com/api/v1/services/aigc/multimodal-generation/generation"
    );
    assert_eq!(
        endpoint_url(ProviderKind::Gemini, "https://g/v1beta", "gemini-2.5-flash-image", true),
        "https://g/v1beta/models/gemini-2.5-flash-image:generateContent"
    );
    assert_eq!(
        endpoint_url(ProviderKind::OpenAi, "https://api.openai.com/v1", "gpt-image-1", false),
        "https://api.openai.com/v1/images/generations"
    );
    assert_eq!(
        endpoint_url(ProviderKind::OpenAi, "https://api.openai.com/v1", "gpt-image-1", true),
        "https://api.openai.com/v1/images/edits"
    );
}

#[test]
fn base64_round_trip() {
    let bytes = vec![0u8, 1, 2, 250, 255, 77];
    let text = encode_image_base64(&bytes);
    assert_eq!(text, "AAEC+v9N");
    assert_eq!(decode_image_base64(&text, "x: "), Ok(bytes));
    assert_eq!(encode_image_base64(b"hi"), "aGk=");
}

#[test]
fn base64_error_has_label() {
    let r = decode_image_base64("not base64!", "解码失败: ");
    let e = r.unwrap_err();
    assert!(e.starts_with("解码失败: "));
    assert!(e.len() > "解码失败: ".len());
}

#[test]
fn data_url_for_dashscope() {
    assert_eq!(png_data_url(b"hi"), "data:image/png;base64,aGk=");
}

#[test]
fn image_value_inline_or_remote() {
    assert_eq!(inline(image_from_value("data:image/png;base64,aGk=", "e: ")), b"hi".to_vec());
    assert_eq!(inline(image_from_value("data:nocomma", "e: ")), Vec::<u8>::new());
    assert_eq!(inline(image_from_value("data:a,aGk=,zz", "e: ")), b"hi".to_vec());
    match image_from_value("https://x/y.png", "e: ") {
        Ok(ReplyImage::Remote(u)) => assert_eq!(u, "https://x/y.png"),
        other => panic!("{:?}", other),
    }
    let e = image_from_value("data:image/png;base64,@@@", "e: ").unwrap_err();
    assert!(e.starts_with("e: "));
}

#[test]
fn dashscope_reply_cases() {
    assert_eq!(
        dashscope_reply_image(false, None).unwrap_err(),
        "DashScope 响应格式异常: 无 choices"
    );
    assert_eq!(
        dashscope_reply_image(true, None).unwrap_err(),
        "DashScope 响应格式异常: 无 content"
    );
    assert_eq!(
        dashscope_reply_image(true, Some(vec![None, None])).unwrap_err(),
        "DashScope 响应中未找到图片数据"
    );
    let r = dashscope_reply_image(
        true,
        Some(vec![None, Some("data:image/png;base64,aGk=".to_string()), Some("https://later".to_string())]),
    );
    assert_eq!(inline(r), b"hi".to_vec());
    match dashscope_reply_image(true, Some(vec![Some("https://img".to_string())])) {
        Ok(ReplyImage::Remote(u)) => assert_eq!(u, "https://img"),
        other => panic!("{:?}", other),
    }
    let e = dashscope_reply_image(true, Some(vec![Some("data:x,!!".to_string())])).unwrap_err();
    assert!(e.starts_with("解码图片 base64 失败: "));
}

#[test]
fn openai_reply_cases() {
    assert_eq!(openai_reply_image(None).unwrap_err(), "OpenAI 响应中无图片数据");
    assert_eq!(openai_reply_image(Some((None, None))).unwrap_err(), "OpenAI 响应中无有效图片数据");
    assert_eq!(
        inline(openai_reply_image(Some((Some("aGk=".to_string()), Some("https://u".to_string()))))),
        b"hi".to_vec()
    );
    match openai_reply_image(Some((None, Some("https://u".to_string())))) {
        Ok(ReplyImage::Remote(u)) => assert_eq!(u, "https://u"),
        other => panic!("{:?}", other),
    }
    let e = openai_reply_image(Some((Some("%%".to_string()), None))).unwrap_err();
    assert!(e.starts_with("解码 base64 图片失败: "));
}

#[test]
fn gemini_reply_cases() {
    assert_eq!(gemini_reply_image(None).unwrap_err(), "Gemini 响应格式异常: 无 parts");
    assert_eq!(gemini_reply_image(Some(vec![None])).unwrap_err(), "Gemini 响应中未找到图片数据");
    assert_eq!(
        gemini_reply_image(Some(vec![None, Some("aGk=".to_string())])),
        Ok(b"hi".to_vec())
    );
    let e = gemini_reply_image(Some(vec![Some("*".to_string())])).unwrap_err();
    assert!(e.starts_with("解码 Gemini 图片失败: "));
}

fn png_of(w: u32, h: u32) -> Vec<u8> {
    let img = image::RgbaImage::from_pixel(w, h, image::Rgba([10, 20, 30, 255]));
    let mut out = std::io::Cursor::new(Vec::new());
    image::DynamicImage::ImageRgba8(img).write_to(&mut out, image::ImageFormat::Png).unwrap();
    out.into_inner()
}

fn dims(bytes: &[u8]) -> (u32, u32) {
    let img = image::load_from_memory(bytes).unwrap();
    (img.width(), img.height())
}

#[test]
fn dashscope_sizes() {
    let s = |w, h| dashscope_gen_size(ImageSize { width: w, height: h });
    assert_eq!(s(192, 208), ("768*832".to_string(), true));
    assert_eq!(s(768, 208), ("1536*416".to_string(), true));
    assert_eq!(s(1024, 1024), ("1024*1024".to_string(), false));
    assert_eq!(s(5000, 5000), ("2500*2500".to_string(), true));
    assert_eq!(s(768, 768), ("768*768".to_string(), false));
}

#[test]
fn openai_sizes() {
    let s = |w, h| openai_gen_size(ImageSize { width: w, height: h });
    assert_eq!(s(192, 208), ("1152x1248".to_string(), true));
    assert_eq!(s(576, 208), ("1728x624".to_string(), true));
    assert_eq!(s(768, 208), ("2304x768".to_string(), true));
    assert_eq!(s(100, 1000), ("668x2000".to_string(), true));
    assert_eq!(s(1024, 1024), ("1024x1024".to_string(), false));
    assert_eq!(s(0, 0), ("0x0".to_string(), false));
}

#[test]
fn dashscope_input_upscaled() {
    let small = png_of(100, 50);
    let out = ensure_dashscope_min_input(&small).unwrap();
    assert_eq!(dims(&out), (500, 250));
    let big = png_of(300, 240);
    assert_eq!(ensure_dashscope_min_input(&big).unwrap(), big);
    let e = ensure_dashscope_min_input(b"nope").unwrap_err();
    assert!(e.starts_with("加载输入图片失败: "));
}

#[test]
fn generated_image_rescaled() {
    let img = png_of(10, 10);
    let target = ImageSize { width: 20, height: 30 };
    assert_eq!(resize_image_if_needed(img.clone(), target, false).unwrap(), img);
    let out = resize_image_if_needed(img, target, true).unwrap();
    assert_eq!(dims(&out), (20, 30));
    let e = resize_image_if_needed(b"x".to_vec(), target, true).unwrap_err();
    assert!(e.starts_with("加载生成图片进行缩放失败: "));
}

fn parse_size(text: &str, sep: char) -> (u64, u64) {
    let (w, h) = text.split_once(sep).unwrap();
    (w.parse().unwrap(), h.parse().unwrap())
}

#[test]
fn requested_sizes_stay_within_provider_limits() {
    for frames in 1..=8u32 {
        let size = ImageSize { width: 192 * frames, height: 208 };
        let (text, _) = openai_gen_size(size);
        let (w, h) = parse_size(&text, 'x');
        assert!(w <= 3 * h && h <= 3 * w, "{text}");
        assert!(w * h >= 1_048_576, "{text}");
        let (text, _) = dashscope_gen_size(size);
        let (w, h) = parse_size(&text, '*');
        assert!(w * h >= 589_824 && w * h <= 16_777_216, "{text}");
    }
}

#[test]
fn base64_groups_and_padding() {
    assert_eq!(encode_image_base64(b""), "");
    assert_eq!(encode_image_base64(b"A"), "QQ==");
    assert_eq!(encode_image_base64(b"Man"), "TWFu");
    assert_eq!(encode_image_base64(&[0xff, 0xff]), "//8=");
    assert_eq!(encode_image_base64(&[0xfb, 0xff, 0xbf]), "+/+/");
}

#[test]
fn scaled_image_written_as_png() {
    let img = PixelImage { width: 3, height: 2, data: vec![200u8; 24] };
    let png = encode_scaled_png(&img, "prefix: ").unwrap();
    assert_eq!(&png[..8], b"\x89PNG\r\n\x1a\n");
    let back = image::load_from_memory(&png).unwrap().to_rgba8();
    assert_eq!((back.width(), back.height()), (3, 2));
    assert_eq!(back.into_raw(), vec![200u8; 24]);
}
