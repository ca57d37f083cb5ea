use bakr::archive::{is_clean_entry_path, make_archive, read_archive, ArchiveEntry};
use bakr::errors::BakError;

fn file(path: &str, content: &[u8]) -> ArchiveEntry {
    ArchiveEntry { path: path.as_bytes().to_vec(), content: Some(content.to_vec()) }
}

fn dir(path: &str) -> ArchiveEntry {
    ArchiveEntry { path: path.as_bytes().to_vec(), content: None }
}

fn assert_same(a: &[ArchiveEntry], c: &[ArchiveEntry]) {
    assert_eq!(a.len(), c.len());
    for (x, y) in a.iter().zip(c.iter()) {
        assert_eq!(x.path, y.path);
        assert_eq!(x.content, y.content);
    }
}

#[test]
fn single_file_round_trip() {
    let content = vec![b'A'; 43];
    let entries = vec![file("foo", &content)];
    let archive = make_archive(&entries).unwrap();
    assert!(archive.len() > 1);
    let back = read_archive(&archive).unwrap();
    assert_same(&entries, &back);
    assert_eq!(back[0].content.as_ref().unwrap().len(), 43);
}

#[test]
fn directory_tree_round_trip() {
    let entries = vec![
        dir("ichi"),
        dir("ichi/ni"),
        file("ichi/foo", &[0x10, 0x22, 0x33, 0x44, 0xff, 0x00, 0x7f, 0x80, 1, 2, 3, 4, 5, 6, 7, 8]),
        file("ichi/bar", &[9, 8, 7, 6, 5, 4, 3, 2, 1, 0, 11, 12, 13, 14, 15, 16]),
        file("ichi/qux", b"0123456789abcdef"),
        file("ichi/ni/foo", &[0xde, 0xad, 0xbe, 0xef, 4, 4, 4, 4, 8, 8, 8, 8, 16, 16, 16, 16]),
        file("ichi/ni/bar", &[0; 16]),
        file("ichi/ni/qux", &[0xff; 16]),
    ];
    let archive = make_archive(&entries).unwrap();
    let back = read_archive(&archive).unwrap();
    assert_same(&entries, &back);
}

#[test]
fn empty_file_and_empty_directory_survive() {
    let entries = vec![dir("d"), dir("d/empty"), file("d/zero", b"")];
    let archive = make_archive(&entries).unwrap();
    let back = read_archive(&archive).unwrap();
    assert_same(&entries, &back);
}

#[test]
fn no_members_round_trip() {
    let entries: Vec<ArchiveEntry> = vec![];
    let archive = make_archive(&entries).unwrap();
    let back = read_archive(&archive).unwrap();
    assert!(back.is_empty());
}

#[test]
fn long_member_names_round_trip() {
    // Longer than a tar header's name field, so the long-name extension runs.
    let long = "seg/".repeat(40) + "leaf";
    let entries = vec![file(&long, b"deep")];
    let archive = make_archive(&entries).unwrap();
    let back = read_archive(&archive).unwrap();
    assert_same(&entries, &back);
}

#[test]
fn repetitive_content_compresses() {
    let content = vec![b'A'; 100_000];
    let entries = vec![file("foo", &content)];
    let archive = make_archive(&entries).unwrap();
    assert!(archive.len() < content.len());
}

#[test]
fn unclean_member_paths_are_rejected() {
    for bad in [
        "", "/abs", "a//b", "a/", "..", "a/../b", ".", "a/./b", "a/.", "tail/..", "a\\b", "\\",
    ] {
        let entries = vec![file(bad, b"x")];
        assert!(!is_clean_entry_path(&bad.as_bytes().to_vec()), "{bad}");
        assert_eq!(make_archive(&entries), Err(BakError::MalformedArtifactName), "{bad}");
    }
}

#[test]
fn ill_formed_utf8_member_paths_are_rejected() {
    let cases: Vec<Vec<u8>> = vec![
        vec![0xff],                          // no such leading byte
        vec![0x80],                          // lone continuation byte
        vec![b'a', 0xc3],                    // truncated two-byte sequence
        vec![0xc0, 0xaf],                    // overlong encoding
        vec![0xed, 0xa0, 0x80],              // surrogate
        vec![0xf5, 0x90, 0x80, 0x80],        // past U+10FFFF
        vec![b'a', 0x00, b'b'],              // NUL
    ];
    for bad in cases {
        assert!(!is_clean_entry_path(&bad), "{bad:?}");
        let entries = vec![ArchiveEntry { path: bad.clone(), content: Some(b"x".to_vec()) }];
        assert_eq!(make_archive(&entries), Err(BakError::MalformedArtifactName), "{bad:?}");
    }
}

#[test]
fn clean_paths_accept_dot_files() {
    for good in ["a", "a/b", ".hidden", "a/.hidden", "a.b/c..d", "..._", "a/..b"] {
        assert!(is_clean_entry_path(&good.as_bytes().to_vec()), "{good}");
    }
}

#[test]
fn non_ascii_member_names_round_trip() {
    let entries = vec![
        dir("日本"),
        file("日本/データ.bin", &[1, 2, 3, 4]),
        file("résumé.txt", "véritable\u{1F4BE}".as_bytes()),
    ];
    for e in &entries {
        assert!(is_clean_entry_path(&e.path));
    }
    let archive = make_archive(&entries).unwrap();
    let back = read_archive(&archive).unwrap();
    assert_same(&entries, &back);
}

#[test]
fn damaged_archive_is_reported_corrupt() {
    assert_eq!(read_archive(&vec![1, 2, 3, 4, 5]), Err(BakError::ArchiveCorrupt));
}
