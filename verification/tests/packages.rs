use aipet::package::{
    file_content,
    build_pet_zip, is_safe_entry_name, sha256_hex, str_eq_ignore_ascii_case,
    validate_pet_package, validate_zip_entries, PackageFile, PetPackageFiles,
};
use aipet::types::{default_atlas, PetAtlas, PetManifest};
use std::io::Write;

fn files(png: bool) -> PetPackageFiles {
    PetPackageFiles {
        pet_json: b"{\"id\":\"cat\"}".to_vec(),
        pet_atlas_json: b"{\"rows\":[]}".to_vec(),
        spritesheet_webp: vec![1, 2, 3, 4, 5],
        spritesheet_png: if png { Some(vec![9, 9]) } else { None },
    }
}

fn raw_zip(entries: &[(&str, &[u8])]) -> Vec<u8> {
    let mut w = zip::ZipWriter::new(std::io::Cursor::new(Vec::new()));
    for (name, data) in entries {
        w.start_file(*name, zip::write::SimpleFileOptions::default()).unwrap();
        w.write_all(data).unwrap();
    }
    w.finish().unwrap().into_inner()
}

fn manifest(id: &str, sheet: &str) -> PetManifest {
    PetManifest {
        id: id.to_string(),
        display_name: "Cat".to_string(),
        description: String::new(),
        spritesheet_path: sheet.to_string(),
    }
}

fn webp_atlas(w: u32, h: u32) -> Vec<u8> {
    let data = vec![0u8; (w * h * 4) as usize];
    webp::Encoder::from_rgba(&data, w, h).encode_lossless().to_vec()
}

#[test]
fn sha256_of_known_input() {
    assert_eq!(
        sha256_hex(b"abc"),
        "ba7816bf8f01cfea414140de5dae2223b00361a396177a9cb410ff61f20015ad"
    );
    assert_eq!(sha256_hex(b"").len(), 64);
}

#[test]
fn checksums_compare_ignoring_case() {
    assert!(str_eq_ignore_ascii_case("ABCdef", "abcDEF"));
    assert!(!str_eq_ignore_ascii_case("abc", "abd"));
}

#[test]
fn only_package_files_are_safe() {
    for n in ["pet.json", "pet-atlas.json", "spritesheet.webp", "spritesheet.png"] {
        assert!(is_safe_entry_name(n), "{n}");
    }
    for n in ["", "../pet.json", "a/pet.json", "pet.json\\x", "/pet.json", "other.txt", "..", "PET.JSON"] {
        assert!(!is_safe_entry_name(n), "{n}");
    }
}

#[test]
fn a_built_package_imports_as_its_files() {
    let zip = build_pet_zip(&files(true)).unwrap();
    let sha = sha256_hex(&zip);
    let got = validate_zip_entries(&zip, Some(&sha)).unwrap();
    let names: Vec<&str> = got.iter().map(|f| f.name.as_str()).collect();
    assert_eq!(names, vec!["pet.json", "pet-atlas.json", "spritesheet.webp", "spritesheet.png"]);
    assert_eq!(got[2].data, vec![1, 2, 3, 4, 5]);
    assert_eq!(got[3].data, vec![9, 9]);
    let upper = sha.to_ascii_uppercase();
    assert_eq!(validate_zip_entries(&zip, Some(&upper)).unwrap().len(), 4);
    assert_eq!(validate_zip_entries(&zip, None).unwrap().len(), 4);
}

#[test]
fn a_package_without_png_has_three_files() {
    let zip = build_pet_zip(&files(false)).unwrap();
    assert_eq!(validate_zip_entries(&zip, None).unwrap().len(), 3);
}

#[test]
fn checksum_mismatch_is_refused() {
    let zip = build_pet_zip(&files(false)).unwrap();
    let actual = sha256_hex(&zip);
    let e = validate_zip_entries(&zip, Some("00")).unwrap_err();
    assert_eq!(e, format!("ZIP 校验失败: SHA-256 不匹配 (期望 00, 实际 {actual})"));
}

#[test]
fn oversized_zip_is_refused() {
    let big = vec![0u8; 80 * 1024 * 1024 + 1];
    let e = validate_zip_entries(&big, None).unwrap_err();
    assert_eq!(e, "ZIP 过大（83886081 bytes），上限 83886080 bytes");
}

#[test]
fn unreadable_zip_is_refused() {
    let e = validate_zip_entries(b"PK not really", None).unwrap_err();
    assert!(e.starts_with("打开 ZIP 失败: "), "{e}");
}

#[test]
fn foreign_entries_are_refused() {
    let zip = raw_zip(&[("pet.json", b"{}"), ("../evil.sh", b"x")]);
    let e = validate_zip_entries(&zip, None).unwrap_err();
    assert_eq!(e, "ZIP 含有非法路径或非白名单文件: ../evil.sh");
}

#[test]
fn missing_files_are_refused() {
    let zip = raw_zip(&[("pet.json", b"{}"), ("spritesheet.webp", b"x")]);
    let e = validate_zip_entries(&zip, None).unwrap_err();
    assert_eq!(e, "ZIP 缺少必需文件: pet.json / pet-atlas.json / spritesheet.webp");
}

#[test]
fn directories_are_skipped() {
    let mut w = zip::ZipWriter::new(std::io::Cursor::new(Vec::new()));
    w.add_directory("assets/", zip::write::SimpleFileOptions::default()).unwrap();
    for name in ["pet.json", "pet-atlas.json", "spritesheet.webp"] {
        w.start_file(name, zip::write::SimpleFileOptions::default()).unwrap();
        w.write_all(b"1").unwrap();
    }
    let zip = w.finish().unwrap().into_inner();
    assert_eq!(validate_zip_entries(&zip, None).unwrap().len(), 3);
}

#[test]
fn package_contents_are_checked() {
    let atlas = default_atlas();
    let sheet = webp_atlas(1536, 1872);
    let id = validate_pet_package(&Ok(manifest("My Cat", "spritesheet.webp")), &Ok(atlas.clone()), &sheet)
        .unwrap();
    assert_eq!(id, "my-cat");
    let e = validate_pet_package(&Err("bad json".into()), &Ok(atlas.clone()), &sheet).unwrap_err();
    assert_eq!(e, "解析 pet.json 失败: bad json");
    let e = validate_pet_package(&Ok(manifest("c", "sheet.png")), &Err("x".into()), &sheet).unwrap_err();
    assert_eq!(e, "pet.json 的 spritesheetPath 必须为 spritesheet.webp");
    let e = validate_pet_package(&Ok(manifest("c", "spritesheet.webp")), &Err("eof".into()), &sheet)
        .unwrap_err();
    assert_eq!(e, "解析 pet-atlas.json 失败: eof");
    let mut bad_cell = atlas.clone();
    bad_cell.cell_width = 100;
    let e = validate_pet_package(&Ok(manifest("c", "spritesheet.webp")), &Ok(bad_cell), &sheet)
        .unwrap_err();
    assert_eq!(e, "图集单元尺寸无效: 100x208，期望 192x208");
    let no_rows = PetAtlas { cell_width: 192, cell_height: 208, rows: vec![] };
    let e = validate_pet_package(&Ok(manifest("c", "spritesheet.webp")), &Ok(no_rows), &sheet)
        .unwrap_err();
    assert_eq!(e, "pet-atlas.json 行数无效");
    let mut bad_row = atlas.clone();
    bad_row.rows[3].frames = 9;
    let e = validate_pet_package(&Ok(manifest("c", "spritesheet.webp")), &Ok(bad_row), &sheet)
        .unwrap_err();
    assert_eq!(e, "状态 waving 帧数无效: 9");
}

#[test]
fn spritesheet_size_is_checked() {
    let atlas = default_atlas();
    let small = webp_atlas(192, 208);
    let e = validate_pet_package(&Ok(manifest("c", "spritesheet.webp")), &Ok(atlas.clone()), &small)
        .unwrap_err();
    assert_eq!(e, "图集尺寸不匹配: 192x208，期望 1536x1872");
    let e = validate_pet_package(&Ok(manifest("c", "spritesheet.webp")), &Ok(atlas), b"junk")
        .unwrap_err();
    assert!(e.starts_with("解码 spritesheet.webp 失败: "), "{e}");
}

#[test]
fn package_file_found_by_name() {
    let files = vec![
        PackageFile { name: "pet.json".into(), data: b"{}".to_vec() },
        PackageFile { name: "spritesheet.webp".into(), data: vec![1, 2, 3] },
        PackageFile { name: "pet.json".into(), data: b"second".to_vec() },
    ];
    assert_eq!(file_content(&files, "spritesheet.webp"), &[1u8, 2, 3][..]);
    assert_eq!(file_content(&files, "pet.json"), &b"{}"[..]);
    assert!(file_content(&files, "pet-atlas.json").is_empty());
}
