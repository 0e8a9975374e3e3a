//! Shared data types of a pet: creation request/progress, manifest, atlas
//! layout, and the pet id derived from a display name.
use vstd::prelude::*;
use crate::text::{
    ascii_lower_char, chars_of, is_ascii_alnum, lemma_trim_back_prefix, lemma_trim_both_idempotent,
    lemma_trim_front_clean, lemma_trim_front_suffix, lower_ascii_char, string_from_chars, string_of, trim_back, trim_both,
    trim_front, trim_vec, TrimClass,
};

verus! {

/// Width of one animation cell, in pixels.
pub const CELL_WIDTH: u32 = 192;

/// Height of one animation cell, in pixels.
pub const CELL_HEIGHT: u32 = 208;

/// Number of frame columns in a spritesheet atlas.
pub const ATLAS_COLS: u32 = 8;

/// Number of animation rows in a spritesheet atlas.
pub const ATLAS_ROWS: u32 = 9;

/// Background colour the generator is asked to paint behind the pet.
pub const CHROMA_KEY: &'static str = "#FF00FF";

/// What a user asks the creation pipeline for.
#[derive(Debug, Clone)]
pub struct PetCreationRequest {
    pub pet_name: String,
    pub description: String,
    pub reference_image: Option<String>,
    pub style_preset: String,
}

/// One progress report of the creation pipeline.
#[derive(Debug, Clone)]
pub struct PetCreationProgress {
    pub task_id: String,
    pub step: u32,
    pub sub_step: String,
    pub status: String,
    pub message: String,
    pub error: Option<String>,
}

/// The result of a finished creation: the task and the pet it made.
#[derive(Debug, Clone)]
pub struct PetCreationResult {
    pub task_id: String,
    pub pet_id: String,
}

/// Contents of `pet.json`.
#[derive(Debug, Clone)]
pub struct PetManifest {
    pub id: String,
    pub display_name: String,
    pub description: String,
    pub spritesheet_path: String,
}

/// One animation row of `pet-atlas.json`.
#[derive(Debug, Clone)]
pub struct PetAtlasRow {
    pub state: String,
    pub display_name: String,
    pub frames: u32,
}

/// Contents of `pet-atlas.json`.
#[derive(Debug, Clone)]
pub struct PetAtlas {
    pub cell_width: u32,
    pub cell_height: u32,
    pub rows: Vec<PetAtlasRow>,
}

/// Resumable state of a creation task, kept as `progress.json` in its work directory.
#[derive(Debug, Clone)]
pub struct CreationProgressFile {
    pub task_id: String,
    pub request: PetCreationRequest,
    pub base_image_done: bool,
    pub completed_strips: Vec<String>,
    pub total_rows: usize,
}

/// A copy of an optional string.
pub fn copy_opt_string(s: &Option<String>) -> (r: Option<String>)
    ensures
        r == *s,
{
    match s {
        Some(v) => Some(v.clone()),
        None => None,
    }
}

impl PetCreationRequest {
    /// A field-by-field copy.
    pub fn duplicate(&self) -> (r: Self)
        ensures
            r == *self,
    {
        PetCreationRequest {
            pet_name: self.pet_name.clone(),
            description: self.description.clone(),
            reference_image: copy_opt_string(&self.reference_image),
            style_preset: self.style_preset.clone(),
        }
    }
}

/// Number of animation rows the generator produces, in atlas order.
pub open spec fn spec_row_count() -> int {
    9
}

/// The animation state name of row `i`.
pub open spec fn row_state(i: int) -> Seq<char> {
    if i == 0 {
        "idle"@
    } else if i == 1 {
        "running-right"@
    } else if i == 2 {
        "running-left"@
    } else if i == 3 {
        "waving"@
    } else if i == 4 {
        "jumping"@
    } else if i == 5 {
        "failed"@
    } else if i == 6 {
        "waiting"@
    } else if i == 7 {
        "running"@
    } else {
        "review"@
    }
}

/// The human-readable name shown for row `i`.
pub open spec fn row_display(i: int) -> Seq<char> {
    if i == 0 {
        "待机"@
    } else if i == 1 {
        "向右跑"@
    } else if i == 2 {
        "向左跑"@
    } else if i == 3 {
        "挥手"@
    } else if i == 4 {
        "跳跃"@
    } else if i == 5 {
        "失败"@
    } else if i == 6 {
        "等待"@
    } else if i == 7 {
        "专注"@
    } else {
        "审视"@
    }
}

/// The number of frames of row `i`.
pub open spec fn row_frames(i: int) -> u32 {
    if i == 0 {
        6
    } else if i == 1 || i == 2 || i == 5 {
        8
    } else if i == 3 {
        4
    } else if i == 4 {
        5
    } else {
        6
    }
}

/// Row `i` of the standard atlas layout, by its view.
pub open spec fn row_matches(row: PetAtlasRow, i: int) -> bool {
    &&& row.state@ == row_state(i)
    &&& row.display_name@ == row_display(i)
    &&& row.frames == row_frames(i)
}

/// `atlas` is the standard layout: 192x208 cells and the nine rows in order.
pub open spec fn is_default_atlas(atlas: PetAtlas) -> bool {
    &&& atlas.cell_width == CELL_WIDTH
    &&& atlas.cell_height == CELL_HEIGHT
    &&& atlas.rows@.len() == spec_row_count()
    &&& forall|i: int| 0 <= i < spec_row_count() ==> row_matches(#[trigger] atlas.rows@[i], i)
}

/// Number of animation rows the generator produces.
pub fn row_count() -> (r: usize)
    ensures
        r == spec_row_count(),
{
    9
}

/// State name of row `i`.
pub fn row_state_name(i: usize) -> (r: &'static str)
    requires
        i < spec_row_count(),
    ensures
        r@ == row_state(i as int),
{
    if i == 0 {
        "idle"
    } else if i == 1 {
        "running-right"
    } else if i == 2 {
        "running-left"
    } else if i == 3 {
        "waving"
    } else if i == 4 {
        "jumping"
    } else if i == 5 {
        "failed"
    } else if i == 6 {
        "waiting"
    } else if i == 7 {
        "running"
    } else {
        "review"
    }
}

/// Display name of row `i`.
fn row_display_name(i: usize) -> (r: &'static str)
    requires
        i < spec_row_count(),
    ensures
        r@ == row_display(i as int),
{
    if i == 0 {
        "待机"
    } else if i == 1 {
        "向右跑"
    } else if i == 2 {
        "向左跑"
    } else if i == 3 {
        "挥手"
    } else if i == 4 {
        "跳跃"
    } else if i == 5 {
        "失败"
    } else if i == 6 {
        "等待"
    } else if i == 7 {
        "专注"
    } else {
        "审视"
    }
}

/// Frame count of row `i`.
pub fn row_frame_count(i: usize) -> (r: u32)
    requires
        i < spec_row_count(),
    ensures
        r == row_frames(i as int),
{
    if i == 0 {
        6
    } else if i == 1 || i == 2 || i == 5 {
        8
    } else if i == 3 {
        4
    } else if i == 4 {
        5
    } else {
        6
    }
}

/// An atlas row from its parts.
pub fn atlas_row(state: &str, display_name: &str, frames: u32) -> (r: PetAtlasRow)
    ensures
        r.state@ == state@,
        r.display_name@ == display_name@,
        r.frames == frames,
{
    PetAtlasRow { state: string_of(state), display_name: string_of(display_name), frames }
}

/// The atlas layout every pet spritesheet follows.
pub fn default_atlas() -> (r: PetAtlas)
    ensures
        is_default_atlas(r),
{
    let mut rows: Vec<PetAtlasRow> = Vec::new();
    let n = row_count();
    let mut i: usize = 0;
    while i < n
        invariant
            i <= n,
            n == spec_row_count(),
            rows@.len() == i,
            forall|k: int| 0 <= k < i ==> row_matches(#[trigger] rows@[k], k),
        decreases n - i,
    {
        rows.push(atlas_row(row_state_name(i), row_display_name(i), row_frame_count(i)));
        i = i + 1;
    }
    PetAtlas { cell_width: CELL_WIDTH, cell_height: CELL_HEIGHT, rows }
}

/// `char::is_alphanumeric` as a function of the character.
pub uninterp spec fn unicode_alphanumeric(c: char) -> bool;

/// Whether a character is alphanumeric: for ASCII, a letter or digit.
pub open spec fn char_alnum(c: char) -> bool {
    if (c as u32) < 0x80 {
        is_ascii_alnum(c)
    } else {
        unicode_alphanumeric(c)
    }
}

/// `char::is_alphanumeric`. Claims the result is a function of the character
/// and, for ASCII characters, is true exactly for letters and digits (the
/// documented alphabetic/numeric classes restricted to ASCII). Which
/// non-ASCII characters are alphanumeric is left unsaid.
#[verifier::external_body]
fn is_alphanumeric(c: char) -> (r: bool)
    ensures
        (c as u32) >= 0x80 ==> r == unicode_alphanumeric(c),
        (c as u32) < 0x80 ==> r == is_ascii_alnum(c),
{
    c.is_alphanumeric()
}

/// `str` of a freshly drawn version-4 uuid in hyphenated form.
/// Claims what every such string satisfies: 36 characters whose first eight
/// are lower-case hexadecimal digits. Which digits come out is chance.
#[verifier::external_body]
fn new_uuid_v4_string() -> (s: String)
    ensures
        s@.len() == 36,
        forall|i: int| 0 <= i < 8 ==> is_lower_hex_digit(#[trigger] s@[i]),
{
    uuid::Uuid::new_v4().to_string()
}

pub open spec fn is_lower_hex_digit(c: char) -> bool {
    ('0' <= c && c <= '9') || ('a' <= c && c <= 'f')
}

/// The character a pet name character becomes in a pet id.
pub open spec fn id_char(c: char) -> char {
    if char_alnum(c) || c == '-' || c == '_' {
        ascii_lower_char(c)
    } else {
        '-'
    }
}

/// The pet id a name maps to before the empty-name fallback.
pub open spec fn sanitized_core(name: Seq<char>) -> Seq<char> {
    trim_both(Seq::new(name.len(), |i: int| id_char(name[i])), TrimClass::Exactly('-'))
}

/// The fallback id: `pet-` followed by eight lower-case hex digits.
pub open spec fn is_fallback_id(s: Seq<char>) -> bool {
    &&& s.len() == 12
    &&& s.subrange(0, 4) == "pet-"@
    &&& forall|i: int| 4 <= i < 12 ==> is_lower_hex_digit(#[trigger] s[i])
}

/// What `sanitize_pet_id` may return for `name`.
pub open spec fn is_sanitized_id(name: Seq<char>, id: Seq<char>) -> bool {
    if sanitized_core(name).len() > 0 {
        id == sanitized_core(name)
    } else {
        is_fallback_id(id)
    }
}

/// A character that sanitizing leaves as it is.
proof fn lemma_id_char_fixed(c: char)
    requires
        char_alnum(c) || c == '-' || c == '_',
    ensures
        id_char(ascii_lower_char(c)) == ascii_lower_char(c),
{
    let d = ascii_lower_char(c);
    if (c as u32) < 0x80 {
        assert((d as u32) < 0x80);
    }
}

/// Sanitizing a pet id gives the same id back: whatever `sanitize_pet_id`
/// returns for a name is its own sanitized form.
pub proof fn sanitize_pet_id_idempotent(name: Seq<char>, id: Seq<char>)
    requires
        is_sanitized_id(name, id),
    ensures
        id.len() > 0,
        sanitized_core(id) == id,
        forall|again: Seq<char>| is_sanitized_id(id, again) <==> again == id,
{
    let cls = TrimClass::Exactly('-');
    if sanitized_core(name).len() > 0 {
        let m = Seq::new(name.len(), |i: int| id_char(name[i]));
        assert forall|i: int| 0 <= i < m.len() implies id_char(#[trigger] m[i]) == m[i] by {
            let c = name[i];
            if char_alnum(c) || c == '-' || c == '_' {
                lemma_id_char_fixed(c);
            }
        }
        let f = trim_front(m, cls);
        lemma_trim_front_suffix(m, cls);
        lemma_trim_back_prefix(f, cls);
        assert forall|i: int| 0 <= i < id.len() implies id_char(#[trigger] id[i]) == id[i] by {
            assert(id[i] == f[i]);
            assert(f[i] == m[i + (m.len() - f.len())]);
        }
        assert(Seq::new(id.len(), |i: int| id_char(id[i])) =~= id);
        lemma_trim_both_idempotent(m, cls);
    } else {
        reveal_strlit("pet-");
        assert forall|i: int| 0 <= i < id.len() implies id_char(#[trigger] id[i]) == id[i] by {
            if i < 4 {
                assert(id[i] == id.subrange(0, 4)[i]);
            }
        }
        assert(Seq::new(id.len(), |i: int| id_char(id[i])) =~= id);
        assert(id[0] == id.subrange(0, 4)[0]);
        assert(trim_front(id, cls) == id);
        assert(trim_back(id, cls) == id);
    }
}

/// A character that may stand in a pet id: `-`, `_`, or an alphanumeric that
/// is not an ASCII upper-case letter.
pub open spec fn is_id_char(c: char) -> bool {
    c == '-' || c == '_' || (char_alnum(c) && !('A' <= c && c <= 'Z'))
}

/// Shape of every pet id: it is not empty, neither starts nor ends with `-`,
/// and holds only `-`, `_` and alphanumerics other than ASCII upper-case
/// letters; a name without any alphanumeric or `_` gets the `pet-` fallback.
pub proof fn sanitized_id_shape(name: Seq<char>, id: Seq<char>)
    requires
        is_sanitized_id(name, id),
    ensures
        id.len() > 0,
        id[0] != '-',
        id.last() != '-',
        forall|i: int| 0 <= i < id.len() ==> is_id_char(#[trigger] id[i]),
        (forall|i: int| 0 <= i < name.len() ==> !(char_alnum(#[trigger] name[i]) || name[i] == '_'))
            ==> is_fallback_id(id),
{
    let cls = TrimClass::Exactly('-');
    let m = Seq::new(name.len(), |i: int| id_char(name[i]));
    let f = trim_front(m, cls);
    lemma_trim_front_suffix(m, cls);
    lemma_trim_front_clean(m, cls);
    lemma_trim_back_prefix(f, cls);
    assert forall|k: int| 0 <= k < m.len() implies is_id_char(#[trigger] m[k]) by {
        let c = name[k];
        if char_alnum(c) || c == '-' || c == '_' {
            if (c as u32) < 0x80 {
                assert((ascii_lower_char(c) as u32) < 0x80);
            }
        }
    }
    if forall|i: int| 0 <= i < name.len() ==> !(char_alnum(#[trigger] name[i]) || name[i] == '_') {
        if f.len() > 0 {
            let k = m.len() - f.len();
            assert(f[0] == m[k]);
            assert(m[k] == '-');
        }
        assert(sanitized_core(name).len() == 0);
    }
    if sanitized_core(name).len() > 0 {
        assert(id == trim_back(f, cls));
        assert(id[0] == f[0]);
        assert forall|i: int| 0 <= i < id.len() implies is_id_char(#[trigger] id[i]) by {
            assert(id[i] == f[i]);
            assert(f[i] == m[i + (m.len() - f.len())]);
        }
    } else {
        reveal_strlit("pet-");
        assert(id[0] == id.subrange(0, 4)[0]);
        assert forall|i: int| 0 <= i < id.len() implies is_id_char(#[trigger] id[i]) by {
            if i < 4 {
                assert(id[i] == id.subrange(0, 4)[i]);
            }
        }
        assert(is_lower_hex_digit(id[11]));
    }
}

/// Folder-safe pet id from a display name: alphanumerics, `-` and `_` are kept
/// (ASCII letters lower-cased), every other character becomes `-`, and leading
/// and trailing `-` are removed. A name that leaves nothing gets `pet-` and
/// eight random hex digits.
pub fn sanitize_pet_id(name: &str) -> (r: String)
    ensures
        is_sanitized_id(name@, r@),
{
    let v = chars_of(name);
    let n = v.len();
    let mut mapped: Vec<char> = Vec::new();
    let mut i: usize = 0;
    while i < n
        invariant
            i <= n,
            n == v@.len(),
            v@ == name@,
            mapped@.len() == i,
            forall|k: int| 0 <= k < i ==> mapped@[k] == id_char(v@[k]),
        decreases n - i,
    {
        let c = v[i];
        let keep = is_alphanumeric(c) || c == '-' || c == '_';
        if keep {
            mapped.push(lower_ascii_char(c));
        } else {
            mapped.push('-');
        }
        i = i + 1;
    }
    assert(mapped@ =~= Seq::new(name@.len(), |k: int| id_char(name@[k])));
    let core = trim_vec(&mapped, TrimClass::Exactly('-'), true, true);
    if core.len() > 0 {
        string_from_chars(core.as_slice())
    } else {
        let u = new_uuid_v4_string();
        let r = fallback_pet_id(u.as_str());
        proof {
            reveal_strlit("pet-");
            assert(r@.subrange(0, 4) =~= "pet-"@);
            assert forall|t: int| 4 <= t < 12 implies is_lower_hex_digit(#[trigger] r@[t]) by {
                assert(r@[t] == u@[t - 4]);
            }
        }
        r
    }
}

/// The id given to a pet whose name leaves nothing: `pet-` and the first
/// eight characters of the drawn uuid text.
pub fn fallback_pet_id(uuid_text: &str) -> (r: String)
    requires
        uuid_text@.len() >= 8,
    ensures
        r@ == "pet-"@ + uuid_text@.subrange(0, 8),
{
    let uv = chars_of(uuid_text);
    let mut r = string_of("pet-");
    let mut k: usize = 0;
    while k < 8
        invariant
            k <= 8,
            uv@ == uuid_text@,
            uv@.len() >= 8,
            r@ == "pet-"@ + uv@.subrange(0, k as int),
        decreases 8 - k,
    {
        crate::text::push_char(&mut r, uv[k]);
        assert(uv@.subrange(0, k + 1) =~= uv@.subrange(0, k as int).push(uv@[k as int]));
        k = k + 1;
    }
    r
}

} // verus!
