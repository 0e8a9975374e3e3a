//! Pet packages: the zip file that carries `pet.json`, `pet-atlas.json` and
//! the spritesheet, its SHA-256 checksum, and the checks an imported package
//! has to pass. Zip reading and writing goes through the `zip` crate, hashing
//! through `sha2` and `hex`.
use vstd::prelude::*;
use sha2::Digest;
use std::io::Read;
use std::io::Write;
use crate::text::{
    ascii_lower, chars_of, chars_eq, contains_seq, decimal, join_message, lower_ascii_vec,
    push_decimal, starts_with, string_of, append_str,
};
use crate::image_ops::{ATLAS_HEIGHT, ATLAS_WIDTH};
use crate::types::{
    ATLAS_COLS, ATLAS_ROWS, CELL_HEIGHT, CELL_WIDTH, PetAtlas, PetAtlasRow, PetManifest,
    is_sanitized_id, sanitize_pet_id,
};

verus! {

/// Largest pet zip accepted for import: 80 MiB.
pub const MAX_ZIP_BYTES: u64 = 83886080;

/// Largest total uncompressed size of the files of an imported pet zip: 120 MiB.
pub const MAX_UNCOMPRESSED_BYTES: u64 = 125829120;

/// The files a pet package may contain.
pub open spec fn allowed_file(name: Seq<char>) -> bool {
    ||| name == "pet.json"@
    ||| name == "pet-atlas.json"@
    ||| name == "spritesheet.webp"@
    ||| name == "spritesheet.png"@
}

/// The files written into a pet package.
#[derive(Debug, Clone)]
pub struct PetPackageFiles {
    pub pet_json: Vec<u8>,
    pub pet_atlas_json: Vec<u8>,
    pub spritesheet_webp: Vec<u8>,
    pub spritesheet_png: Option<Vec<u8>>,
}

/// One file of a pet package: its name and contents.
#[derive(Debug, Clone)]
pub struct PackageFile {
    pub name: String,
    pub data: Vec<u8>,
}

#[verifier::external_type_specification]
#[verifier::external_body]
pub struct ExZipError(zip::result::ZipError);

#[verifier::external_type_specification]
#[verifier::external_body]
pub struct ExIoError(std::io::Error);

/// An in-memory zip archive being written (`zip::ZipWriter` over a
/// `Cursor<Vec<u8>>`).
#[verifier::external_body]
pub struct ZipBuilder {
    inner: zip::ZipWriter<std::io::Cursor<Vec<u8>>>,
}

/// The SHA-256 digest of the bytes (`sha2::Sha256`).
pub uninterp spec fn sha256_of(data: Seq<u8>) -> Seq<u8>;

/// The entries a zip writer has been given so far: name and contents, in order.
pub uninterp spec fn zip_written(w: ZipBuilder) -> Seq<(Seq<char>, Seq<u8>)>;

/// Whether the zip writer has an entry open to write to (it has started a
/// file and not finished it).
pub uninterp spec fn zip_writing(w: ZipBuilder) -> bool;

/// The entries together take at most this many bytes (1 GiB) for the
/// archive to be written without ZIP64 structures: each entry, compressed
/// or not, and every offset stay below 4 GiB.
pub const ZIP_SAFE_TOTAL_BYTES: u64 = 1073741824;

/// The total size of the entries' contents.
pub open spec fn total_len(entries: Seq<(Seq<char>, Seq<u8>)>) -> int
    decreases entries.len(),
{
    if entries.len() == 0 {
        0
    } else {
        total_len(entries.drop_last()) + entries.last().1.len()
    }
}

/// Some entry has the name.
pub open spec fn has_name(entries: Seq<(Seq<char>, Seq<u8>)>, name: Seq<char>) -> bool {
    exists|i: int| 0 <= i < entries.len() && #[trigger] entries[i].0 == name
}

/// An in-memory archive of at most a thousand entries, with names of at
/// most 16383 characters and at most 1 GiB of contents, can take another
/// entry and be finished.
pub open spec fn zip_room(entries: Seq<(Seq<char>, Seq<u8>)>, extra: int) -> bool {
    &&& entries.len() <= 1000
    &&& total_len(entries) + extra <= ZIP_SAFE_TOTAL_BYTES
}

/// The number of entries `zip::ZipArchive::new` finds in the bytes, or nothing
/// when they are not a zip archive it can open.
pub uninterp spec fn zip_entry_count(bytes: Seq<u8>) -> Option<usize>;

/// Name, directory flag and uncompressed size of entry `i` of the archive
/// (`ZipArchive::by_index`), or nothing when it cannot be read.
pub uninterp spec fn zip_entry_header(bytes: Seq<u8>, i: usize) -> Option<(Seq<char>, bool, u64)>;

/// The uncompressed contents of entry `i` of the archive (`Read::read_to_end`
/// on the entry), or nothing when they cannot be read.
pub uninterp spec fn zip_entry_contents(bytes: Seq<u8>, i: usize) -> Option<Seq<u8>>;

/// The `zip` crate treats an entry whose name ends in a slash or backslash as a
/// directory.
pub open spec fn zip_dir_name(name: Seq<char>) -> bool {
    name.len() > 0 && (name.last() == '/' || name.last() == '\\')
}

/// Lower-case hexadecimal digit for a value below sixteen.
pub open spec fn hex_digit_char(d: int) -> char {
    if d < 10 {
        ((d + 48) as u32) as char
    } else {
        ((d + 87) as u32) as char
    }
}

/// The lower-case hexadecimal text of the bytes, two digits per byte.
pub open spec fn hex_text(b: Seq<u8>) -> Seq<char>
    decreases b.len(),
{
    if b.len() == 0 {
        Seq::empty()
    } else {
        hex_text(b.drop_last()) + seq![
            hex_digit_char(b.last() as int / 16),
            hex_digit_char(b.last() as int % 16),
        ]
    }
}

/// `Sha256::new`, `update` and `finalize`: the 32-byte digest.
#[verifier::external_body]
fn sha256_digest(data: &[u8]) -> (r: Vec<u8>)
    ensures
        r@ == sha256_of(data@),
        r@.len() == 32,
{
    let mut hasher = sha2::Sha256::new();
    hasher.update(data);
    hasher.finalize().to_vec()
}

/// `hex::encode`: the bytes as lower-case hexadecimal, two digits per byte.
#[verifier::external_body]
fn hex_encode(data: &[u8]) -> (r: String)
    ensures
        r@ == hex_text(data@),
{
    hex::encode(data)
}

/// The SHA-256 checksum of the bytes as 64 lower-case hexadecimal digits.
pub fn sha256_hex(data: &[u8]) -> (r: String)
    ensures
        r@ == hex_text(sha256_of(data@)),
{
    let digest = sha256_digest(data);
    hex_encode(digest.as_slice())
}

/// `str::eq_ignore_ascii_case`.
pub open spec fn eq_ignore_ascii_case(a: Seq<char>, b: Seq<char>) -> bool {
    ascii_lower(a) == ascii_lower(b)
}

pub fn str_eq_ignore_ascii_case(a: &str, b: &str) -> (r: bool)
    ensures
        r == eq_ignore_ascii_case(a@, b@),
{
    let la = lower_ascii_vec(&chars_of(a));
    let lb = lower_ascii_vec(&chars_of(b));
    chars_eq(&la, &lb)
}

/// Whether a zip entry name may be extracted: one of the package files, so
/// never empty, never a path with separators, never going up with `..`.
pub fn is_safe_entry_name(name: &str) -> (r: bool)
    ensures
        r == allowed_file(name@),
        r ==> name@.len() > 0 && !name@.contains('/') && !name@.contains('\\')
            && !contains_seq(name@, ".."@),
{
    proof {
        reveal_strlit("pet.json");
        reveal_strlit("pet-atlas.json");
        reveal_strlit("spritesheet.webp");
        reveal_strlit("spritesheet.png");
        reveal_strlit("..");
    }
    let r = crate::text::str_eq(name, "pet.json") || crate::text::str_eq(name, "pet-atlas.json")
        || crate::text::str_eq(name, "spritesheet.webp") || crate::text::str_eq(
        name,
        "spritesheet.png",
    );
    proof {
        if r {
            assert(!contains_seq(name@, ".."@)) by {
                if contains_seq(name@, ".."@) {
                    let i = choose|i: int| crate::text::occurs_at(name@, ".."@, i);
                    assert(name@.subrange(i, i + 2)[0] == name@[i]);
                    assert(name@.subrange(i, i + 2)[1] == name@[i + 1]);
                    assert(name@[i] == '.' && name@[i + 1] == '.');
                }
            }
        }
    }
    r
}

/// `ZipWriter::new` on an empty in-memory buffer.
#[verifier::external_body]
fn zip_writer_new() -> (w: ZipBuilder)
    ensures
        zip_written(w) == Seq::<(Seq<char>, Seq<u8>)>::empty(),
        !zip_writing(w),
{
    ZipBuilder { inner: zip::ZipWriter::new(std::io::Cursor::new(Vec::new())) }
}

/// `ZipWriter::start_file` with Deflate compression: a new, empty entry.
/// It finishes the entry before (whose sizes must stay below 4 GiB without
/// the large-file option), refuses a name already in the archive, and
/// unwraps the name's length as a 16-bit field. Writing into memory does not
/// fail, so with a new name and room left it succeeds.
#[verifier::external_body]
fn zip_start_file(w: &mut ZipBuilder, name: &str) -> (r: Result<
    (),
    zip::result::ZipError,
>)
    requires
        name@.len() <= 16383,
    ensures
        r is Ok ==> zip_written(*final(w)) == zip_written(*old(w)).push((name@, Seq::empty()))
            && zip_writing(*final(w)),
        !has_name(zip_written(*old(w)), name@) && zip_written(*old(w)).len() < 1000 && zip_room(
            zip_written(*old(w)),
            0,
        ) ==> r is Ok,
{
    let options = zip::write::SimpleFileOptions::default().compression_method(
        zip::CompressionMethod::Deflated,
    );
    w.inner.start_file(name, options)
}

/// `Write::write_all` on a zip writer: the bytes are added to the entry
/// started last (writing with no entry started fails, unless there is
/// nothing to write). The entry is compressed into memory, which does not
/// fail; only an entry growing past 4 GiB without the large-file option is
/// refused.
#[verifier::external_body]
fn zip_write_all(w: &mut ZipBuilder, data: &[u8]) -> (r: Result<
    (),
    std::io::Error,
>)
    ensures
        r is Ok ==> {
            let before = zip_written(*old(w));
            let k = before.len() - 1;
            zip_written(*final(w)) == if before.len() > 0 {
                before.update(k, (before[k].0, before[k].1 + data@))
            } else {
                before
            }
        } && zip_writing(*final(w)) == zip_writing(*old(w)),
        zip_writing(*old(w)) && zip_room(zip_written(*old(w)), data@.len() as int) ==> r is Ok,
{
    w.inner.write_all(data)
}

/// The archive reads back the entries: as many entries, each with its name,
/// directory flag, size and contents.
pub open spec fn reads_back(bytes: Seq<u8>, entries: Seq<(Seq<char>, Seq<u8>)>) -> bool {
    &&& zip_entry_count(bytes) == Some(entries.len() as usize)
    &&& forall|i: int|
        #![trigger entries[i]]
        0 <= i < entries.len() ==> zip_entry_header(bytes, i as usize) == Some(
            (entries[i].0, zip_dir_name(entries[i].0), entries[i].1.len() as u64),
        ) && zip_entry_contents(bytes, i as usize) == Some(entries[i].1)
}

/// `ZipWriter::finish`: the archive bytes. Reading the archive back with
/// `ZipArchive` gives the entries that were written, in order. Finishing
/// writes the last entry's sizes and the central directory into memory; it
/// fails only for sizes past the 4 GiB limit without the large-file option.
#[verifier::external_body]
fn zip_finish(w: ZipBuilder) -> (r: Result<
    Vec<u8>,
    zip::result::ZipError,
>)
    ensures
        r matches Ok(bytes) ==> reads_back(bytes@, zip_written(w)),
        zip_room(zip_written(w), 0) ==> r is Ok,
{
    match w.inner.finish() {
        Ok(cursor) => Ok(cursor.into_inner()),
        Err(e) => Err(e),
    }
}

/// `ZipArchive::new` and `ZipArchive::len` on the bytes.
#[verifier::external_body]
fn zip_count(bytes: &[u8]) -> (r: Result<usize, zip::result::ZipError>)
    ensures
        match r {
            Ok(n) => zip_entry_count(bytes@) == Some(n),
            Err(_) => zip_entry_count(bytes@) is None,
        },
{
    match zip::ZipArchive::new(std::io::Cursor::new(bytes)) {
        Ok(archive) => Ok(archive.len()),
        Err(e) => Err(e),
    }
}

/// `ZipArchive::by_index` on the archive in the bytes: name, directory flag
/// and uncompressed size of the entry.
#[verifier::external_body]
fn zip_header(bytes: &[u8], i: usize) -> (r: Result<(String, bool, u64), zip::result::ZipError>)
    ensures
        match r {
            Ok(h) => zip_entry_header(bytes@, i) == Some((h.0@, h.1, h.2)),
            Err(_) => zip_entry_header(bytes@, i) is None,
        },
{
    match zip::ZipArchive::new(std::io::Cursor::new(bytes)) {
        Ok(mut archive) => match archive.by_index(i) {
            Ok(file) => Ok((file.name().to_string(), file.is_dir(), file.size())),
            Err(e) => Err(e),
        },
        Err(e) => Err(e),
    }
}

/// `Read::read_to_end` on entry `i` of the archive in the bytes.
#[verifier::external_body]
fn zip_contents(bytes: &[u8], i: usize) -> (r: Result<Vec<u8>, std::io::Error>)
    ensures
        match r {
            Ok(data) => zip_entry_contents(bytes@, i) == Some(data@),
            Err(_) => zip_entry_contents(bytes@, i) is None,
        },
{
    match zip::ZipArchive::new(std::io::Cursor::new(bytes)) {
        Ok(mut archive) => match archive.by_index(i) {
            Ok(mut file) => {
                let mut buf = Vec::new();
                match file.read_to_end(&mut buf) {
                    Ok(_) => Ok(buf),
                    Err(e) => Err(e),
                }
            },
            Err(e) => Err(std::io::Error::from(e)),
        },
        Err(e) => Err(std::io::Error::from(e)),
    }
}

/// The `Display` text of a zip error.
#[verifier::external_body]
fn zip_error_text(e: &zip::result::ZipError) -> String {
    format!("{e}")
}

/// The `Display` text of an I/O error.
#[verifier::external_body]
fn io_error_text(e: &std::io::Error) -> String {
    format!("{e}")
}

/// The entries of a pet package, in the order they are written.
pub open spec fn package_entries(files: PetPackageFiles) -> Seq<(Seq<char>, Seq<u8>)> {
    let base = seq![
        ("pet.json"@, files.pet_json@),
        ("pet-atlas.json"@, files.pet_atlas_json@),
        ("spritesheet.webp"@, files.spritesheet_webp@),
    ];
    match files.spritesheet_png {
        Some(png) => base.push(("spritesheet.png"@, png@)),
        None => base,
    }
}

/// Write one entry into the archive.
fn add_entry(w: &mut ZipBuilder, name: &str, data: &[u8]) -> (r: Result<(), String>)
    requires
        name@.len() <= 16383,
    ensures
        r is Ok ==> zip_written(*final(w)) == zip_written(*old(w)).push((name@, data@)),
        !has_name(zip_written(*old(w)), name@) && zip_written(*old(w)).len() < 1000 && zip_room(
            zip_written(*old(w)),
            data@.len() as int,
        ) ==> r is Ok,
        r matches Err(e) ==> starts_with(e@, "zip "@ + name@ + ": "@) || starts_with(
            e@,
            "write "@ + name@ + ": "@,
        ),
{
    match zip_start_file(w, name) {
        Ok(()) => {},
        Err(e) => {
            let mut msg = string_of("zip ");
            append_str(&mut msg, name);
            append_str(&mut msg, ": ");
            let text = zip_error_text(&e);
            let ghost head = msg@;
            append_str(&mut msg, text.as_str());
            proof {
                crate::text::lemma_starts_with_concat(head, text@);
            }
            return Err(msg);
        },
    }
    proof {
        let before = zip_written(*old(w));
        let after = before.push((name@, Seq::<u8>::empty()));
        assert(after.drop_last() =~= before);
        assert(total_len(after) == total_len(before));
    }
    match zip_write_all(w, data) {
        Ok(()) => {
            assert(Seq::<u8>::empty() + data@ =~= data@);
            Ok(())
        },
        Err(e) => {
            let mut msg = string_of("write ");
            append_str(&mut msg, name);
            append_str(&mut msg, ": ");
            let text = io_error_text(&e);
            let ghost head = msg@;
            append_str(&mut msg, text.as_str());
            proof {
                crate::text::lemma_starts_with_concat(head, text@);
            }
            Err(msg)
        },
    }
}

/// Writing the package's entries one after the other always leaves room
/// for the next when the whole package is within the limit, and the names
/// are new each time.
proof fn lemma_package_room(files: PetPackageFiles)
    ensures
        ({
            let e = package_entries(files);
            let a = e.subrange(0, 1);
            let b = e.subrange(0, 2);
            let c = e.subrange(0, 3);
            &&& total_len(e) <= ZIP_SAFE_TOTAL_BYTES ==> {
                &&& zip_room(Seq::empty(), files.pet_json@.len() as int)
                &&& zip_room(a, files.pet_atlas_json@.len() as int)
                &&& zip_room(b, files.spritesheet_webp@.len() as int)
                &&& zip_room(c, 0)
                &&& (files.spritesheet_png matches Some(p) ==> zip_room(c, p@.len() as int)
                    && zip_room(e, 0))
            }
            &&& !has_name(Seq::empty(), "pet.json"@)
            &&& !has_name(a, "pet-atlas.json"@)
            &&& !has_name(b, "spritesheet.webp"@)
            &&& !has_name(c, "spritesheet.png"@)
            &&& a == seq![("pet.json"@, files.pet_json@)]
            &&& b == a.push(("pet-atlas.json"@, files.pet_atlas_json@))
            &&& c == b.push(("spritesheet.webp"@, files.spritesheet_webp@))
            &&& files.spritesheet_png is None ==> e == c
            &&& files.spritesheet_png matches Some(p) ==> e == c.push(("spritesheet.png"@, p@))
        }),
{
    reveal_strlit("pet.json");
    reveal_strlit("pet-atlas.json");
    reveal_strlit("spritesheet.webp");
    reveal_strlit("spritesheet.png");
    let e = package_entries(files);
    let a = e.subrange(0, 1);
    let b = e.subrange(0, 2);
    let c = e.subrange(0, 3);
    assert(a.drop_last() =~= Seq::<(Seq<char>, Seq<u8>)>::empty());
    assert(b.drop_last() =~= a);
    assert(c.drop_last() =~= b);
    assert(a =~= seq![("pet.json"@, files.pet_json@)]);
    assert(b =~= a.push(("pet-atlas.json"@, files.pet_atlas_json@)));
    assert(c =~= b.push(("spritesheet.webp"@, files.spritesheet_webp@)));
    match files.spritesheet_png {
        Some(p) => {
            assert(e.drop_last() =~= c);
            assert(e =~= c.push(("spritesheet.png"@, p@)));
        },
        None => {
            assert(e =~= c);
        },
    }
    assert("pet.json"@.len() == 8 && "pet-atlas.json"@.len() == 14);
    assert("spritesheet.webp"@.len() == 16 && "spritesheet.png"@.len() == 15);
    assert("spritesheet.webp"@ != "spritesheet.png"@) by {
        assert("spritesheet.webp"@[12] != "spritesheet.png"@[12]);
    }
    assert(!has_name(Seq::<(Seq<char>, Seq<u8>)>::empty(), "pet.json"@));
    assert(!has_name(a, "pet-atlas.json"@));
    assert(!has_name(b, "spritesheet.webp"@));
    assert(!has_name(c, "spritesheet.png"@));
    assert(total_len(Seq::<(Seq<char>, Seq<u8>)>::empty()) == 0);
    assert(total_len(a) == files.pet_json@.len());
    assert(total_len(b) == total_len(a) + files.pet_atlas_json@.len());
    assert(total_len(c) == total_len(b) + files.spritesheet_webp@.len());
}

/// Build the zip of a pet package in memory. Read back, the archive holds
/// `pet.json`, `pet-atlas.json`, `spritesheet.webp` and, when there is one,
/// `spritesheet.png`, in that order.
pub fn build_pet_zip(files: &PetPackageFiles) -> (r: Result<Vec<u8>, String>)
    ensures
        r matches Ok(b) ==> reads_back(b@, package_entries(*files)),
        total_len(package_entries(*files)) <= ZIP_SAFE_TOTAL_BYTES ==> r is Ok,
{
    proof {
        reveal_strlit("pet.json");
        reveal_strlit("pet-atlas.json");
        reveal_strlit("spritesheet.webp");
        reveal_strlit("spritesheet.png");
        lemma_package_room(*files);
    }
    let mut w = zip_writer_new();
    add_entry(&mut w, "pet.json", files.pet_json.as_slice())?;
    add_entry(&mut w, "pet-atlas.json", files.pet_atlas_json.as_slice())?;
    add_entry(&mut w, "spritesheet.webp", files.spritesheet_webp.as_slice())?;
    match &files.spritesheet_png {
        Some(png) => {
            add_entry(&mut w, "spritesheet.png", png.as_slice())?;
        },
        None => {},
    }
    assert(zip_written(w) =~= package_entries(*files));
    match zip_finish(w) {
        Ok(bytes) => Ok(bytes),
        Err(e) => {
            let text = zip_error_text(&e);
            Err(join_message("finish zip: ", text.as_str()))
        },
    }
}

/// `u64::saturating_add`.
pub open spec fn saturating_add(a: u64, b: u64) -> u64 {
    if a + b > u64::MAX {
        u64::MAX
    } else {
        (a + b) as u64
    }
}

/// How the entries of an archive read from some index on.
pub enum EntryScan {
    /// The package files found, in archive order.
    Files(Seq<(Seq<char>, Seq<u8>)>),
    /// An entry header could not be read.
    BadHeader,
    /// An entry that is not one of the package files.
    Unsafe(Seq<char>),
    /// The files add up to more than the uncompressed limit.
    TooLarge,
    /// The contents of the named entry could not be read.
    Unreadable(Seq<char>),
}

/// A file found before the rest of the scan.
pub open spec fn prepend_file(f: (Seq<char>, Seq<u8>), rest: EntryScan) -> EntryScan {
    match rest {
        EntryScan::Files(fs) => EntryScan::Files(seq![f] + fs),
        other => other,
    }
}

/// Read the entries `i..count` of the archive in order: directories are
/// skipped, any other entry must be a package file, the declared sizes are
/// added up (saturating) and may not pass the limit, and the contents are read.
pub open spec fn scan_entries(bytes: Seq<u8>, count: int, i: int, used: u64) -> EntryScan
    decreases count - i,
{
    if i < 0 || i >= count {
        EntryScan::Files(Seq::empty())
    } else {
        match zip_entry_header(bytes, i as usize) {
            None => EntryScan::BadHeader,
            Some(h) => if h.1 {
                scan_entries(bytes, count, i + 1, used)
            } else if !allowed_file(h.0) {
                EntryScan::Unsafe(h.0)
            } else if saturating_add(used, h.2) > MAX_UNCOMPRESSED_BYTES {
                EntryScan::TooLarge
            } else {
                match zip_entry_contents(bytes, i as usize) {
                    None => EntryScan::Unreadable(h.0),
                    Some(d) => prepend_file(
                        (h.0, d),
                        scan_entries(bytes, count, i + 1, saturating_add(used, h.2)),
                    ),
                }
            },
        }
    }
}

/// Some file has the name.
pub open spec fn has_file(fs: Seq<(Seq<char>, Seq<u8>)>, name: Seq<char>) -> bool {
    exists|k: int| 0 <= k < fs.len() && #[trigger] fs[k].0 == name
}

/// The files include `pet.json`, `pet-atlas.json` and `spritesheet.webp`.
pub open spec fn has_required_files(fs: Seq<(Seq<char>, Seq<u8>)>) -> bool {
    has_file(fs, "pet.json"@) && has_file(fs, "pet-atlas.json"@) && has_file(
        fs,
        "spritesheet.webp"@,
    )
}

/// What importing a pet zip decides.
pub enum ZipVerdict {
    /// The package files, in archive order.
    Accepted(Seq<(Seq<char>, Seq<u8>)>),
    /// Refused with exactly this message.
    Rejected(Seq<char>),
    /// Refused with this text followed by the error of the zip reader.
    RejectedWith(Seq<char>),
}

/// The message for a zip over the size limit.
pub open spec fn zip_too_large_message(len: nat) -> Seq<char> {
    "ZIP 过大（"@ + decimal(len) + " bytes），上限 "@ + decimal(MAX_ZIP_BYTES as nat) + " bytes"@
}

/// The message for a checksum that does not match.
pub open spec fn checksum_mismatch_message(expected: Seq<char>, actual: Seq<char>) -> Seq<char> {
    "ZIP 校验失败: SHA-256 不匹配 (期望 "@ + expected + ", 实际 "@ + actual + ")"@
}

/// The message for a package without one of the required files.
pub open spec fn missing_files_message() -> Seq<char> {
    "ZIP 缺少必需文件: pet.json / pet-atlas.json / spritesheet.webp"@
}

/// The verdict on a pet zip: size limit, checksum (compared ignoring ASCII
/// case, when one is expected), then the entries, then the required files.
pub open spec fn zip_verdict(bytes: Seq<u8>, expected: Option<Seq<char>>) -> ZipVerdict {
    if bytes.len() > MAX_ZIP_BYTES {
        ZipVerdict::Rejected(zip_too_large_message(bytes.len()))
    } else if expected is Some && !eq_ignore_ascii_case(
        hex_text(sha256_of(bytes)),
        expected.unwrap(),
    ) {
        ZipVerdict::Rejected(checksum_mismatch_message(expected.unwrap(), hex_text(sha256_of(bytes))))
    } else {
        match zip_entry_count(bytes) {
            None => ZipVerdict::RejectedWith("打开 ZIP 失败: "@),
            Some(n) => scan_verdict(scan_entries(bytes, n as int, 0, 0)),
        }
    }
}

/// The verdict on a zip that opened, from the scan of its entries.
pub open spec fn scan_verdict(scan: EntryScan) -> ZipVerdict {
    match scan {
        EntryScan::Files(fs) => if has_required_files(fs) {
            ZipVerdict::Accepted(fs)
        } else {
            ZipVerdict::Rejected(missing_files_message())
        },
        EntryScan::BadHeader => ZipVerdict::RejectedWith("读取 ZIP 条目失败: "@),
        EntryScan::Unsafe(name) => ZipVerdict::Rejected("ZIP 含有非法路径或非白名单文件: "@ + name),
        EntryScan::TooLarge => ZipVerdict::Rejected("ZIP 解压后体积过大"@),
        EntryScan::Unreadable(name) => ZipVerdict::RejectedWith("读取 ZIP 文件 "@ + name + " 失败: "@),
    }
}

/// The package files as names and contents.
pub open spec fn files_view(fs: Seq<PackageFile>) -> Seq<(Seq<char>, Seq<u8>)> {
    fs.map_values(|f: PackageFile| (f.name@, f.data@))
}

/// The view of an optional string argument.
pub open spec fn opt_str_view(s: Option<&str>) -> Option<Seq<char>> {
    match s {
        Some(t) => Some(t@),
        None => None,
    }
}

/// The result agrees with a verdict.
pub open spec fn follows_verdict(r: Result<Vec<PackageFile>, String>, v: ZipVerdict) -> bool {
    match v {
        ZipVerdict::Accepted(fs) => r matches Ok(files) && files_view(files@) == fs,
        ZipVerdict::Rejected(m) => r matches Err(e) && e@ == m,
        ZipVerdict::RejectedWith(p) => r matches Err(e) && starts_with(e@, p),
    }
}

/// Files found before the rest of the scan.
pub open spec fn prepend_files(fs: Seq<(Seq<char>, Seq<u8>)>, rest: EntryScan) -> EntryScan {
    match rest {
        EntryScan::Files(more) => EntryScan::Files(fs + more),
        other => other,
    }
}

proof fn lemma_prepend_step(fs: Seq<(Seq<char>, Seq<u8>)>, f: (Seq<char>, Seq<u8>), rest: EntryScan)
    ensures
        prepend_files(fs, prepend_file(f, rest)) == prepend_files(fs.push(f), rest),
{
    match rest {
        EntryScan::Files(more) => {
            assert(fs + (seq![f] + more) =~= fs.push(f) + more);
        },
        _ => {},
    }
}

/// Append the error text to a message head.
fn with_detail(head: String, detail: String) -> (r: String)
    ensures
        r@ == head@ + detail@,
        starts_with(r@, head@),
{
    let mut msg = head;
    append_str(&mut msg, detail.as_str());
    proof {
        crate::text::lemma_starts_with_concat(head@, detail@);
    }
    msg
}

/// Check an imported pet zip and take its files out: at most 80 MiB, the
/// expected SHA-256 checksum if one is given, only package files (directories
/// skipped), at most 120 MiB uncompressed, and `pet.json`, `pet-atlas.json`
/// and `spritesheet.webp` present.
pub fn validate_zip_entries(zip_bytes: &[u8], expected_sha256: Option<&str>) -> (r: Result<
    Vec<PackageFile>,
    String,
>)
    ensures
        follows_verdict(r, zip_verdict(zip_bytes@, opt_str_view(expected_sha256))),
{
    let ghost b = zip_bytes@;
    let len = zip_bytes.len();
    if len as u64 > MAX_ZIP_BYTES {
        let mut msg = string_of("ZIP 过大（");
        push_decimal(&mut msg, len as u64);
        append_str(&mut msg, " bytes），上限 ");
        push_decimal(&mut msg, MAX_ZIP_BYTES);
        append_str(&mut msg, " bytes");
        assert(msg@ =~= zip_too_large_message(b.len()));
        return Err(msg);
    }
    match expected_sha256 {
        Some(expected) => {
            let actual = sha256_hex(zip_bytes);
            if !str_eq_ignore_ascii_case(actual.as_str(), expected) {
                let mut msg = string_of("ZIP 校验失败: SHA-256 不匹配 (期望 ");
                append_str(&mut msg, expected);
                append_str(&mut msg, ", 实际 ");
                append_str(&mut msg, actual.as_str());
                append_str(&mut msg, ")");
                assert(msg@ =~= checksum_mismatch_message(expected@, actual@));
                return Err(msg);
            }
        },
        None => {},
    }
    let count = match zip_count(zip_bytes) {
        Ok(n) => n,
        Err(e) => {
            return Err(with_detail(string_of("打开 ZIP 失败: "), zip_error_text(&e)));
        },
    };
    let mut files: Vec<PackageFile> = Vec::new();
    let mut used: u64 = 0;
    let mut found_pet_json = false;
    let mut found_atlas = false;
    let mut found_webp = false;
    let mut i: usize = 0;
    while i < count
        invariant
            b == zip_bytes@,
            zip_entry_count(b) == Some(count),
            zip_verdict(b, opt_str_view(expected_sha256)) == scan_verdict(
                scan_entries(b, count as int, 0, 0),
            ),
            i <= count,
            scan_entries(b, count as int, 0, 0) == prepend_files(
                files_view(files@),
                scan_entries(b, count as int, i as int, used),
            ),
            found_pet_json == has_file(files_view(files@), "pet.json"@),
            found_atlas == has_file(files_view(files@), "pet-atlas.json"@),
            found_webp == has_file(files_view(files@), "spritesheet.webp"@),
        decreases count - i,
    {
        let ghost fs = files_view(files@);
        let (name, is_dir, size) = match zip_header(zip_bytes, i) {
            Ok(h) => h,
            Err(e) => {
                return Err(with_detail(string_of("读取 ZIP 条目失败: "), zip_error_text(&e)));
            },
        };
        if is_dir {
            i = i + 1;
            continue ;
        }
        if !is_safe_entry_name(name.as_str()) {
            let msg = join_message("ZIP 含有非法路径或非白名单文件: ", name.as_str());
            return Err(msg);
        }
        used = used.saturating_add(size);
        if used > MAX_UNCOMPRESSED_BYTES {
            return Err(string_of("ZIP 解压后体积过大"));
        }
        let data = match zip_contents(zip_bytes, i) {
            Ok(d) => d,
            Err(e) => {
                let mut head = string_of("读取 ZIP 文件 ");
                append_str(&mut head, name.as_str());
                append_str(&mut head, " 失败: ");
                return Err(with_detail(head, io_error_text(&e)));
            },
        };
        proof {
            lemma_prepend_step(fs, (name@, data@), scan_entries(b, count as int, i + 1, used));
        }
        let is_pet_json = crate::text::str_eq(name.as_str(), "pet.json");
        let is_atlas = crate::text::str_eq(name.as_str(), "pet-atlas.json");
        let is_webp = crate::text::str_eq(name.as_str(), "spritesheet.webp");
        let ghost entry = (name@, data@);
        files.push(PackageFile { name, data });
        proof {
            assert(files_view(files@) =~= fs.push(entry));
            let nfs = files_view(files@);
            assert(nfs[nfs.len() - 1].0 == entry.0);
            assert forall|n: Seq<char>| has_file(nfs, n) <==> has_file(fs, n) || entry.0 == n by {
                if has_file(nfs, n) {
                    let k = choose|k: int| 0 <= k < nfs.len() && #[trigger] nfs[k].0 == n;
                    if k < fs.len() {
                        assert(fs[k].0 == n);
                    }
                }
                if has_file(fs, n) {
                    let k = choose|k: int| 0 <= k < fs.len() && #[trigger] fs[k].0 == n;
                    assert(nfs[k].0 == n);
                }
            }
        }
        if is_pet_json {
            found_pet_json = true;
        }
        if is_atlas {
            found_atlas = true;
        }
        if is_webp {
            found_webp = true;
        }
        i = i + 1;
    }
    assert(prepend_files(files_view(files@), EntryScan::Files(Seq::empty())) == EntryScan::Files(
        files_view(files@),
    )) by {
        assert(files_view(files@) + Seq::empty() =~= files_view(files@));
    }
    if !(found_pet_json && found_atlas && found_webp) {
        return Err(string_of("ZIP 缺少必需文件: pet.json / pet-atlas.json / spritesheet.webp"));
    }
    Ok(files)
}

/// Total size of the entries from index `k` on.
pub open spec fn size_from(entries: Seq<(Seq<char>, Seq<u8>)>, k: int) -> int
    decreases entries.len() - k,
{
    if 0 <= k < entries.len() {
        entries[k].1.len() + size_from(entries, k + 1)
    } else {
        0
    }
}

proof fn lemma_size_from_nonneg(entries: Seq<(Seq<char>, Seq<u8>)>, k: int)
    ensures
        size_from(entries, k) >= 0,
    decreases entries.len() - k,
{
    if 0 <= k < entries.len() {
        lemma_size_from_nonneg(entries, k + 1);
    }
}

/// An archive that reads back package files scans as exactly those files.
proof fn lemma_scan_reads_back(
    bytes: Seq<u8>,
    entries: Seq<(Seq<char>, Seq<u8>)>,
    k: int,
    used: u64,
)
    requires
        reads_back(bytes, entries),
        entries.len() <= usize::MAX,
        0 <= k <= entries.len(),
        forall|j: int|
            #![trigger entries[j]]
            0 <= j < entries.len() ==> allowed_file(entries[j].0) && !zip_dir_name(entries[j].0),
        used + size_from(entries, k) <= MAX_UNCOMPRESSED_BYTES,
    ensures
        scan_entries(bytes, entries.len() as int, k, used) == EntryScan::Files(
            entries.subrange(k, entries.len() as int),
        ),
    decreases entries.len() - k,
{
    let n = entries.len() as int;
    if k < n {
        let e = entries[k];
        lemma_size_from_nonneg(entries, k + 1);
        assert(zip_entry_header(bytes, k as usize) == Some((e.0, zip_dir_name(e.0), e.1.len() as u64)));
        assert(zip_entry_contents(bytes, k as usize) == Some(e.1));
        let next = (used + e.1.len()) as u64;
        assert(saturating_add(used, e.1.len() as u64) == next);
        lemma_scan_reads_back(bytes, entries, k + 1, next);
        assert(seq![e] + entries.subrange(k + 1, n) =~= entries.subrange(k, n));
    } else {
        assert(entries.subrange(k, n) =~= Seq::<(Seq<char>, Seq<u8>)>::empty());
    }
}

/// A pet package built by `build_pet_zip` imports as the files it was built
/// from: when it is within the size limits, validating it with no checksum,
/// or with its own SHA-256 checksum, accepts exactly the written entries.
pub proof fn built_package_imports(files: PetPackageFiles, bytes: Seq<u8>, expected: Option<Seq<char>>)
    requires
        reads_back(bytes, package_entries(files)),
        bytes.len() <= MAX_ZIP_BYTES,
        size_from(package_entries(files), 0) <= MAX_UNCOMPRESSED_BYTES,
        expected is None || expected == Some(hex_text(sha256_of(bytes))),
    ensures
        zip_verdict(bytes, expected) == ZipVerdict::Accepted(package_entries(files)),
{
    let entries = package_entries(files);
    reveal_strlit("pet.json");
    reveal_strlit("pet-atlas.json");
    reveal_strlit("spritesheet.webp");
    reveal_strlit("spritesheet.png");
    assert forall|j: int|
        #![trigger entries[j]]
        0 <= j < entries.len() implies allowed_file(entries[j].0) && !zip_dir_name(entries[j].0) by {
        if j == 3 {
            assert(entries[j].0 == "spritesheet.png"@);
        }
    }
    lemma_scan_reads_back(bytes, entries, 0, 0);
    assert(entries.subrange(0, entries.len() as int) =~= entries);
    assert(entries[0].0 == "pet.json"@);
    assert(entries[1].0 == "pet-atlas.json"@);
    assert(entries[2].0 == "spritesheet.webp"@);
}

/// A row of `pet-atlas.json` whose frame count is not between 1 and 8.
pub open spec fn bad_frames(row: PetAtlasRow) -> bool {
    row.frames == 0 || row.frames > ATLAS_COLS
}

/// The first row from index `k` on with a bad frame count.
pub open spec fn first_bad_row(rows: Seq<PetAtlasRow>, k: int) -> Option<int>
    decreases rows.len() - k,
{
    if k < 0 || k >= rows.len() {
        None
    } else if bad_frames(rows[k]) {
        Some(k)
    } else {
        first_bad_row(rows, k + 1)
    }
}

/// What the check of an extracted package decides.
pub enum PackageVerdict {
    /// The package is valid; the pet id is the sanitized manifest id.
    Valid,
    /// Refused with exactly this message.
    Rejected(Seq<char>),
    /// Refused with this text followed by the decoder's error.
    RejectedWith(Seq<char>),
}

/// The verdict on the parsed `pet.json`, the parsed `pet-atlas.json` and the
/// spritesheet bytes of a package, checked in that order.
pub open spec fn package_verdict(
    manifest: Result<PetManifest, String>,
    atlas: Result<PetAtlas, String>,
    webp: Seq<u8>,
) -> PackageVerdict {
    match manifest {
        Err(e) => PackageVerdict::Rejected("解析 pet.json 失败: "@ + e@),
        Ok(m) => if m.spritesheet_path@ != "spritesheet.webp"@ {
            PackageVerdict::Rejected("pet.json 的 spritesheetPath 必须为 spritesheet.webp"@)
        } else {
            match atlas {
                Err(e) => PackageVerdict::Rejected("解析 pet-atlas.json 失败: "@ + e@),
                Ok(a) => if a.cell_width != CELL_WIDTH || a.cell_height != CELL_HEIGHT {
                    PackageVerdict::Rejected(
                        "图集单元尺寸无效: "@ + decimal(a.cell_width as nat) + "x"@ + decimal(
                            a.cell_height as nat,
                        ) + "，期望 192x208"@,
                    )
                } else if a.rows@.len() == 0 || a.rows@.len() > ATLAS_ROWS {
                    PackageVerdict::Rejected("pet-atlas.json 行数无效"@)
                } else if first_bad_row(a.rows@, 0) is Some {
                    let row = a.rows@[first_bad_row(a.rows@, 0).unwrap()];
                    PackageVerdict::Rejected(
                        "状态 "@ + row.state@ + " 帧数无效: "@ + decimal(row.frames as nat),
                    )
                } else {
                    match crate::codec::decoded_rgba8(webp) {
                        None => PackageVerdict::RejectedWith("解码 spritesheet.webp 失败: "@),
                        Some(d) => if d.0 != ATLAS_WIDTH || d.1 != ATLAS_HEIGHT {
                            PackageVerdict::Rejected(
                                "图集尺寸不匹配: "@ + decimal(d.0 as nat) + "x"@ + decimal(
                                    d.1 as nat,
                                ) + "，期望 1536x1872"@,
                            )
                        } else {
                            PackageVerdict::Valid
                        },
                    }
                },
            }
        },
    }
}

/// A package is accepted only with a spritesheet that decodes to exactly
/// 1536 by 1872 pixels. With the same `pet.json` and `pet-atlas.json`, a
/// spritesheet that decodes to any other size is turned down with the size
/// mismatch message naming that size.
pub proof fn package_needs_full_atlas_size(
    manifest: Result<PetManifest, String>,
    atlas: Result<PetAtlas, String>,
    webp: Seq<u8>,
    other_webp: Seq<u8>,
)
    ensures
        package_verdict(manifest, atlas, webp) == PackageVerdict::Valid ==> (
        crate::codec::decoded_rgba8(webp) matches Some(d) && d.0 == 1536 && d.1 == 1872),
        package_verdict(manifest, atlas, webp) == PackageVerdict::Valid && (
        crate::codec::decoded_rgba8(other_webp) matches Some(d) && (d.0 != 1536 || d.1 != 1872))
            ==> package_verdict(manifest, atlas, other_webp) == PackageVerdict::Rejected(
            "图集尺寸不匹配: "@ + decimal(crate::codec::decoded_rgba8(other_webp).unwrap().0 as nat)
                + "x"@ + decimal(crate::codec::decoded_rgba8(other_webp).unwrap().1 as nat)
                + "，期望 1536x1872"@,
        ),
{
}

/// The contents of the first file named `name`, or nothing when no file has
/// that name.
pub open spec fn named_content(files: Seq<PackageFile>, name: Seq<char>) -> Seq<u8>
    decreases files.len(),
{
    if files.len() == 0 {
        Seq::empty()
    } else if files[0].name@ == name {
        files[0].data@
    } else {
        named_content(files.drop_first(), name)
    }
}

/// The contents of the package file named `name`; empty when there is none.
pub fn file_content<'a>(files: &'a Vec<PackageFile>, name: &str) -> (r: &'a [u8])
    ensures
        r@ == named_content(files@, name@),
{
    let n = files.len();
    let mut i: usize = 0;
    assert(files@.subrange(0, n as int) =~= files@);
    while i < n
        invariant
            n == files@.len(),
            i <= n,
            named_content(files@, name@) == named_content(files@.subrange(i as int, n as int), name@),
        decreases n - i,
    {
        let ghost rest = files@.subrange(i as int, n as int);
        assert(rest.drop_first() =~= files@.subrange(i + 1, n as int));
        assert(rest[0] == files@[i as int]);
        if crate::text::str_eq(files[i].name.as_str(), name) {
            return files[i].data.as_slice();
        }
        i = i + 1;
    }
    assert(files@.subrange(n as int, n as int) =~= Seq::<PackageFile>::empty());
    &[]
}

/// Message `head` followed by `w` x `h` and `tail`.
fn size_message(head: &str, w: u32, h: u32, tail: &str) -> (r: String)
    ensures
        r@ == head@ + decimal(w as nat) + "x"@ + decimal(h as nat) + tail@,
{
    let mut msg = string_of(head);
    push_decimal(&mut msg, w as u64);
    append_str(&mut msg, "x");
    push_decimal(&mut msg, h as u64);
    append_str(&mut msg, tail);
    msg
}

/// Check the contents of an extracted pet package: the parsed `pet.json`
/// (or its parse error), the parsed `pet-atlas.json` (or its parse error) and
/// the spritesheet. On success, the pet id to install it under.
#[verifier::loop_isolation(false)]
pub fn validate_pet_package(
    manifest: &Result<PetManifest, String>,
    atlas: &Result<PetAtlas, String>,
    webp: &[u8],
) -> (r: Result<String, String>)
    ensures
        match package_verdict(*manifest, *atlas, webp@) {
            PackageVerdict::Valid => r matches Ok(id) && is_sanitized_id(
                manifest.unwrap().id@,
                id@,
            ),
            PackageVerdict::Rejected(m) => r matches Err(e) && e@ == m,
            PackageVerdict::RejectedWith(p) => r matches Err(e) && starts_with(e@, p),
        },
{
    let m = match manifest {
        Err(e) => {
            return Err(join_message("解析 pet.json 失败: ", e.as_str()));
        },
        Ok(m) => m,
    };
    if !crate::text::str_eq(m.spritesheet_path.as_str(), "spritesheet.webp") {
        return Err(string_of("pet.json 的 spritesheetPath 必须为 spritesheet.webp"));
    }
    let a = match atlas {
        Err(e) => {
            return Err(join_message("解析 pet-atlas.json 失败: ", e.as_str()));
        },
        Ok(a) => a,
    };
    if a.cell_width != CELL_WIDTH || a.cell_height != CELL_HEIGHT {
        return Err(size_message("图集单元尺寸无效: ", a.cell_width, a.cell_height, "，期望 192x208"));
    }
    if a.rows.len() == 0 || a.rows.len() > 9 {
        return Err(string_of("pet-atlas.json 行数无效"));
    }
    let n = a.rows.len();
    let mut k: usize = 0;
    while k < n
        invariant
            n == a.rows@.len(),
            k <= n,
            first_bad_row(a.rows@, 0) == first_bad_row(a.rows@, k as int),
        decreases n - k,
    {
        let row = &a.rows[k];
        if row.frames == 0 || row.frames > ATLAS_COLS {
            let mut msg = string_of("状态 ");
            append_str(&mut msg, row.state.as_str());
            append_str(&mut msg, " 帧数无效: ");
            push_decimal(&mut msg, row.frames as u64);
            return Err(msg);
        }
        k = k + 1;
    }
    let img = match crate::codec::decode_rgba8(webp) {
        Ok(img) => img,
        Err(e) => {
            let text = crate::codec::image_error_text(&e);
            return Err(with_detail(string_of("解码 spritesheet.webp 失败: "), text));
        },
    };
    if img.width != ATLAS_WIDTH || img.height != ATLAS_HEIGHT {
        return Err(size_message("图集尺寸不匹配: ", img.width, img.height, "，期望 1536x1872"));
    }
    let pet_id = sanitize_pet_id(m.id.as_str());
    Ok(pet_id)
}

} // verus!
