//! The image generation providers as the pipeline talks to them: which API a
//! provider name selects, the endpoints, base64 image payloads, and how the
//! image is found in each provider's reply.
use vstd::prelude::*;
use base64::Engine;
use crate::ai_config::AiApiConfig;
use crate::text::{append_str, join_message, starts_with, string_of, str_eq, chars_of};

verus! {

/// Requested size of a generated image, in pixels.
#[derive(Debug, Clone, Copy)]
pub struct ImageSize {
    pub width: u32,
    pub height: u32,
}

/// The API family a provider name selects.
#[derive(Debug, Clone, Copy, PartialEq, Eq, Structural)]
pub enum ProviderKind {
    DashScope,
    Gemini,
    /// Any other name is served by the OpenAI images API.
    OpenAi,
}

/// `dashscope` and `gemini` have their own APIs; anything else is OpenAI.
pub open spec fn spec_provider_kind(name: Seq<char>) -> ProviderKind {
    if name == "dashscope"@ {
        ProviderKind::DashScope
    } else if name == "gemini"@ {
        ProviderKind::Gemini
    } else {
        ProviderKind::OpenAi
    }
}

/// The API family of a provider.
pub fn provider_kind(name: &str) -> (r: ProviderKind)
    ensures
        r == spec_provider_kind(name@),
{
    if str_eq(name, "dashscope") {
        ProviderKind::DashScope
    } else if str_eq(name, "gemini") {
        ProviderKind::Gemini
    } else {
        ProviderKind::OpenAi
    }
}

/// A client cannot be made without an API key.
pub fn check_client_config(config: &AiApiConfig) -> (r: Result<(), String>)
    ensures
        config.api_key@.len() == 0 ==> (r matches Err(e) && e@
            == "API Key 未配置，请在设置中配置 AI API Key"@),
        config.api_key@.len() > 0 ==> r is Ok,
{
    if config.api_key.as_str().is_empty() {
        return Err(string_of("API Key 未配置，请在设置中配置 AI API Key"));
    }
    Ok(())
}

/// The endpoint a request goes to.
pub fn endpoint_url(kind: ProviderKind, base_url: &str, model: &str, edit: bool) -> (r: String)
    ensures
        r@ == match kind {
            ProviderKind::DashScope => base_url@ + "/services/aigc/multimodal-generation/generation"@,
            ProviderKind::Gemini => base_url@ + "/models/"@ + model@ + ":generateContent"@,
            ProviderKind::OpenAi => if edit {
                base_url@ + "/images/edits"@
            } else {
                base_url@ + "/images/generations"@
            },
        },
{
    let mut u = string_of(base_url);
    match kind {
        ProviderKind::DashScope => append_str(&mut u, "/services/aigc/multimodal-generation/generation"),
        ProviderKind::Gemini => {
            append_str(&mut u, "/models/");
            append_str(&mut u, model);
            append_str(&mut u, ":generateContent");
        },
        ProviderKind::OpenAi => if edit {
            append_str(&mut u, "/images/edits")
        } else {
            append_str(&mut u, "/images/generations")
        },
    }
    u
}

#[verifier::external_type_specification]
#[verifier::external_body]
pub struct ExDecodeError(base64::DecodeError);

/// The character of a six-bit value in the standard base64 alphabet.
pub open spec fn base64_char(v: int) -> char {
    if v < 26 {
        (65 + v) as char
    } else if v < 52 {
        (97 + v - 26) as char
    } else if v < 62 {
        (48 + v - 52) as char
    } else if v == 62 {
        '+'
    } else {
        '/'
    }
}

/// The standard base64 text (`base64::engine::general_purpose::STANDARD`)
/// of the bytes: every three bytes become four characters of six bits each,
/// and a last group of one or two bytes is padded with `=` to four.
pub open spec fn base64_standard(bytes: Seq<u8>) -> Seq<char>
    decreases bytes.len(),
{
    if bytes.len() == 0 {
        Seq::empty()
    } else if bytes.len() == 1 {
        let a = bytes[0] as int;
        seq![base64_char(a / 4), base64_char((a % 4) * 16), '=', '=']
    } else if bytes.len() == 2 {
        let (a, b) = (bytes[0] as int, bytes[1] as int);
        seq![base64_char(a / 4), base64_char((a % 4) * 16 + b / 16), base64_char((b % 16) * 4), '=']
    } else {
        let (a, b, c) = (bytes[0] as int, bytes[1] as int, bytes[2] as int);
        seq![
            base64_char(a / 4),
            base64_char((a % 4) * 16 + b / 16),
            base64_char((b % 16) * 4 + c / 64),
            base64_char(c % 64),
        ] + base64_standard(bytes.subrange(3, bytes.len() as int))
    }
}

/// The bytes that standard base64 decoding gives for the text, or nothing
/// when it is not valid base64.
pub uninterp spec fn base64_standard_decoded(text: Seq<char>) -> Option<Seq<u8>>;

/// `STANDARD.encode`: the padded standard base64 text of the bytes.
/// Decoding what it encodes gives the bytes back.
#[verifier::external_body]
fn base64_encode(bytes: &[u8]) -> (r: String)
    requires
        bytes@.len() <= usize::MAX / 2,
    ensures
        r@ == base64_standard(bytes@),
        base64_standard_decoded(r@) == Some(bytes@),
{
    base64::engine::general_purpose::STANDARD.encode(bytes)
}

/// `STANDARD.decode`.
#[verifier::external_body]
fn base64_decode(text: &str) -> (r: Result<Vec<u8>, base64::DecodeError>)
    ensures
        match r {
            Ok(b) => base64_standard_decoded(text@) == Some(b@),
            Err(_) => base64_standard_decoded(text@) is None,
        },
{
    base64::engine::general_purpose::STANDARD.decode(text)
}

/// The `Display` text of a base64 error.
#[verifier::external_body]
fn decode_error_text(e: &base64::DecodeError) -> String {
    format!("{e}")
}

/// Encode an image for a JSON payload or an event.
pub fn encode_image_base64(bytes: &[u8]) -> (r: String)
    requires
        bytes@.len() <= usize::MAX / 2,
    ensures
        r@ == base64_standard(bytes@),
        base64_standard_decoded(r@) == Some(bytes@),
{
    base64_encode(bytes)
}

/// Decode a base64 image (a reference image, a base image preview), with
/// `label` in front of the error.
pub fn decode_image_base64(text: &str, label: &str) -> (r: Result<Vec<u8>, String>)
    ensures
        match base64_standard_decoded(text@) {
            Some(b) => r matches Ok(v) && v@ == b,
            None => r matches Err(e) && starts_with(e@, label@),
        },
{
    match base64_decode(text) {
        Ok(b) => Ok(b),
        Err(e) => {
            let detail = decode_error_text(&e);
            let msg = join_message(label, detail.as_str());
            proof {
                crate::text::lemma_starts_with_concat(label@, detail@);
            }
            Err(msg)
        },
    }
}

/// An image sent inline to DashScope: a PNG data URL.
pub fn png_data_url(bytes: &[u8]) -> (r: String)
    requires
        bytes@.len() <= usize::MAX / 2,
    ensures
        r@ == "data:image/png;base64,"@ + base64_standard(bytes@),
{
    let b64 = base64_encode(bytes);
    join_message("data:image/png;base64,", b64.as_str())
}

/// Where the generated image is.
#[derive(Debug, Clone)]
pub enum ReplyImage {
    /// Sent in the reply itself.
    Inline(Vec<u8>),
    /// To be downloaded from this URL.
    Remote(String),
}

/// The text after the first comma up to the next one (empty when there is no
/// comma).
pub open spec fn second_segment(s: Seq<char>) -> Seq<char>
    decreases s.len(),
{
    if s.len() == 0 {
        Seq::empty()
    } else if s[0] == ',' {
        crate::server_api::first_segment(s.drop_first())
    } else {
        second_segment(s.drop_first())
    }
}

fn second_segment_exec(v: &Vec<char>) -> (r: Vec<char>)
    ensures
        r@ == second_segment(v@),
{
    let n = v.len();
    let mut i: usize = 0;
    assert(v@.subrange(0, n as int) =~= v@);
    while i < n && v[i] != ','
        invariant
            n == v@.len(),
            i <= n,
            second_segment(v@) == second_segment(v@.subrange(i as int, n as int)),
        decreases n - i,
    {
        assert(v@.subrange(i as int, n as int).drop_first() =~= v@.subrange(i + 1, n as int));
        i = i + 1;
    }
    let mut out: Vec<char> = Vec::new();
    if i == n {
        return out;
    }
    let mut j: usize = i + 1;
    assert(v@.subrange(i as int, n as int).drop_first() =~= v@.subrange(i + 1, n as int));
    assert(v@.subrange(i + 1, n as int).subrange(0, 0) =~= out@);
    while j < n && v[j] != ','
        invariant
            n == v@.len(),
            i < j <= n,
            out@ == v@.subrange(i + 1, j as int),
            second_segment(v@) == out@ + crate::server_api::first_segment(v@.subrange(j as int, n as int)),
        decreases n - j,
    {
        let ghost rest = v@.subrange(j as int, n as int);
        assert(rest.drop_first() =~= v@.subrange(j + 1, n as int));
        assert(out@ + (seq![v@[j as int]] + crate::server_api::first_segment(rest.drop_first())) =~= out@.push(
            v@[j as int],
        ) + crate::server_api::first_segment(v@.subrange(j + 1, n as int)));
        out.push(v[j]);
        j = j + 1;
    }
    assert(out@ + Seq::<char>::empty() =~= out@);
    out
}

/// What a reply's image value stands for: a data URL holds the image inline
/// (the base64 text after its first comma), with `label` in front of a
/// decoding error; anything else is a URL to download.
pub open spec fn image_value_result(value: Seq<char>, label: Seq<char>, r: Result<ReplyImage, String>) -> bool {
    if starts_with(value, "data:"@) {
        match base64_standard_decoded(second_segment(value)) {
            Some(b) => r matches Ok(ReplyImage::Inline(v)) && v@ == b,
            None => r matches Err(e) && starts_with(e@, label),
        }
    } else {
        r matches Ok(ReplyImage::Remote(u)) && u@ == value
    }
}

/// Take the image out of a reply's image value.
pub fn image_from_value(value: &str, label: &str) -> (r: Result<ReplyImage, String>)
    ensures
        image_value_result(value@, label@, r),
{
    let v = chars_of(value);
    if crate::text::starts_with_vec(&v, &chars_of("data:")) {
        let part = second_segment_exec(&v);
        let text = crate::text::string_from_chars(part.as_slice());
        match decode_image_base64(text.as_str(), label) {
            Ok(b) => Ok(ReplyImage::Inline(b)),
            Err(e) => Err(e),
        }
    } else {
        Ok(ReplyImage::Remote(string_of(value)))
    }
}

/// The first item that is present.
pub open spec fn first_present<T>(s: Seq<Option<T>>) -> Option<T>
    decreases s.len(),
{
    if s.len() == 0 {
        None
    } else if s[0] is Some {
        s[0]
    } else {
        first_present(s.drop_first())
    }
}

proof fn lemma_first_present_step<T>(s: Seq<Option<T>>, i: int)
    requires
        0 <= i < s.len(),
    ensures
        s[i] is None ==> first_present(s.subrange(i, s.len() as int)) == first_present(
            s.subrange(i + 1, s.len() as int),
        ),
        s[i] is Some ==> first_present(s.subrange(i, s.len() as int)) == s[i],
{
    let t = s.subrange(i, s.len() as int);
    assert(t.drop_first() =~= s.subrange(i + 1, s.len() as int));
    assert(t[0] == s[i]);
}

/// The first present string of a list, if any.
fn find_first_present(items: &Vec<Option<String>>) -> (r: Option<usize>)
    ensures
        match r {
            Some(i) => i < items@.len() && first_present(items@) == items@[i as int],
            None => first_present(items@) is None,
        },
{
    let n = items.len();
    let mut i: usize = 0;
    assert(items@.subrange(0, n as int) =~= items@);
    while i < n
        invariant
            n == items@.len(),
            i <= n,
            first_present(items@) == first_present(items@.subrange(i as int, n as int)),
        decreases n - i,
    {
        proof {
            lemma_first_present_step(items@, i as int);
        }
        if items[i].is_some() {
            return Some(i);
        }
        i = i + 1;
    }
    assert(items@.subrange(n as int, n as int).len() == 0);
    None
}

/// The image of a DashScope reply: `output.choices` must be there, with
/// `message.content` in its first choice (`content`: the `image` value of
/// each content item); the first item with an `image` value holds the image.
pub fn dashscope_reply_image(has_choices: bool, content: Option<Vec<Option<String>>>) -> (r: Result<
    ReplyImage,
    String,
>)
    ensures
        !has_choices ==> (r matches Err(e) && e@ == "DashScope 响应格式异常: 无 choices"@),
        has_choices ==> match content {
            None => r matches Err(e) && e@ == "DashScope 响应格式异常: 无 content"@,
            Some(items) => match first_present(items@) {
                Some(value) => image_value_result(value@, "解码图片 base64 失败: "@, r),
                None => r matches Err(e) && e@ == "DashScope 响应中未找到图片数据"@,
            },
        },
{
    if !has_choices {
        return Err(string_of("DashScope 响应格式异常: 无 choices"));
    }
    match content {
        None => Err(string_of("DashScope 响应格式异常: 无 content")),
        Some(items) => match find_first_present(&items) {
            Some(i) => match &items[i] {
                Some(value) => image_from_value(value.as_str(), "解码图片 base64 失败: "),
                None => Err(string_of("DashScope 响应中未找到图片数据")),
            },
            None => Err(string_of("DashScope 响应中未找到图片数据")),
        },
    }
}

/// The image of an OpenAI reply: the first element of `data`, with its
/// `b64_json` text, or else its `url`.
pub fn openai_reply_image(first: Option<(Option<String>, Option<String>)>) -> (r: Result<ReplyImage, String>)
    ensures
        match first {
            None => r matches Err(e) && e@ == "OpenAI 响应中无图片数据"@,
            Some((Some(b64), _)) => match base64_standard_decoded(b64@) {
                Some(b) => r matches Ok(ReplyImage::Inline(v)) && v@ == b,
                None => r matches Err(e) && starts_with(e@, "解码 base64 图片失败: "@),
            },
            Some((None, Some(url))) => r matches Ok(ReplyImage::Remote(u)) && u == url,
            Some((None, None)) => r matches Err(e) && e@ == "OpenAI 响应中无有效图片数据"@,
        },
{
    match first {
        None => Err(string_of("OpenAI 响应中无图片数据")),
        Some((Some(b64), _)) => match decode_image_base64(b64.as_str(), "解码 base64 图片失败: ") {
            Ok(b) => Ok(ReplyImage::Inline(b)),
            Err(e) => Err(e),
        },
        Some((None, Some(url))) => Ok(ReplyImage::Remote(url)),
        Some((None, None)) => Err(string_of("OpenAI 响应中无有效图片数据")),
    }
}

/// The image of a Gemini reply: `candidates[0].content.parts` must be there
/// (`parts`: the `inlineData.data` text of each part); the first part with
/// one holds the image as base64.
pub fn gemini_reply_image(parts: Option<Vec<Option<String>>>) -> (r: Result<Vec<u8>, String>)
    ensures
        match parts {
            None => r matches Err(e) && e@ == "Gemini 响应格式异常: 无 parts"@,
            Some(ps) => match first_present(ps@) {
                Some(data) => match base64_standard_decoded(data@) {
                    Some(b) => r matches Ok(v) && v@ == b,
                    None => r matches Err(e) && starts_with(e@, "解码 Gemini 图片失败: "@),
                },
                None => r matches Err(e) && e@ == "Gemini 响应中未找到图片数据"@,
            },
        },
{
    match parts {
        None => Err(string_of("Gemini 响应格式异常: 无 parts")),
        Some(ps) => match find_first_present(&ps) {
            Some(i) => match &ps[i] {
                Some(data) => decode_image_base64(data.as_str(), "解码 Gemini 图片失败: "),
                None => Err(string_of("Gemini 响应中未找到图片数据")),
            },
            None => Err(string_of("Gemini 响应中未找到图片数据")),
        },
    }
}

} // verus!
