use riggen_app::download::{stored_zip, zip_entry_name};
use std::io::{Cursor, Read};

#[test]
fn the_zip_is_reproducible() {
    let files = vec![
        ("/export/a.xml".to_string(), b"<a/>".to_vec()),
        ("/export/meshes/b.stl".to_string(), vec![0u8; 32]),
    ];
    let root = "/export";
    assert_eq!(stored_zip(&files, root), stored_zip(&files, root));
}

#[test]
fn entry_names_are_relative_to_the_root_or_the_file_name() {
    assert_eq!(zip_entry_name("/export/a.xml", "/export"), "a.xml");
    assert_eq!(zip_entry_name("/export/meshes/b.stl", "/export"), "meshes/b.stl");
    assert_eq!(zip_entry_name("/export/meshes/b.stl", "/export/"), "meshes/b.stl");
    assert_eq!(zip_entry_name("/elsewhere/c.stl", "/export"), "c.stl");
    assert_eq!(zip_entry_name("/exported/c.stl", "/export"), "c.stl");
    assert_eq!(zip_entry_name("a/./b//c.stl", "a"), "b/c.stl");
}

#[test]
fn the_zip_holds_every_file_stored_under_its_entry_name() {
    let files = vec![
        ("/export/arm.xml".to_string(), b"<mujoco/>".to_vec()),
        ("/export/meshes/base.stl".to_string(), vec![7u8; 100]),
        ("/elsewhere/extra.json".to_string(), b"{}".to_vec()),
    ];
    let archive = stored_zip(&files, "/export").expect("distinct names are accepted");
    let mut zip = zip::ZipArchive::new(Cursor::new(archive)).unwrap();
    assert_eq!(zip.len(), 3);
    for (name, bytes) in [
        ("arm.xml", &files[0].1),
        ("meshes/base.stl", &files[1].1),
        ("extra.json", &files[2].1),
    ] {
        let mut entry = zip.by_name(name).unwrap();
        assert_eq!(entry.compression(), zip::CompressionMethod::Stored);
        let mut read = Vec::new();
        entry.read_to_end(&mut read).unwrap();
        assert_eq!(&read, bytes, "{name}");
    }
    let names: Vec<String> = zip.file_names().map(str::to_owned).collect();
    assert!(!names.iter().any(|n| n.starts_with('/')), "{names:?}");
}

#[test]
fn two_files_with_one_entry_name_are_refused() {
    let files = vec![
        ("/export/a.xml".to_string(), b"1".to_vec()),
        ("/elsewhere/a.xml".to_string(), b"2".to_vec()),
    ];
    assert_eq!(stored_zip(&files, "/export"), None);
}

#[test]
fn no_files_is_an_empty_archive() {
    let archive = stored_zip(&[], "/export").expect("an empty archive");
    let zip = zip::ZipArchive::new(Cursor::new(archive)).unwrap();
    assert_eq!(zip.len(), 0);
}

#[test]
fn an_entry_name_longer_than_a_zip_header_holds_is_refused() {
    let long = format!("/export/{}.stl", "a".repeat(70_000));
    let files = vec![(long, b"solid".to_vec())];
    assert_eq!(stored_zip(&files, "/export"), None);
    let fits = format!("/export/{}", "b".repeat(65_535));
    assert!(stored_zip(&[(fits, Vec::new())], "/export").is_some());
}
