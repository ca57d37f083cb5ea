use bakr::errors::BakError;
use bakr::naming::{add_extension, remove_archive_ending, remove_extension};

fn b(s: &str) -> Vec<u8> {
    s.as_bytes().to_vec()
}

#[test]
fn add_extension_appends_to_file_name() {
    assert_eq!(add_extension(&b("foo"), &b(".bak")), Ok(b("foo.bak")));
    assert_eq!(add_extension(&b("a/b/foo"), &b(".tar.zstd")), Ok(b("a/b/foo.tar.zstd")));
}

#[test]
fn add_extension_drops_trailing_separator() {
    assert_eq!(add_extension(&b("a/b/"), &b(".bak.d")), Ok(b("a/b.bak.d")));
    assert_eq!(add_extension(&b("dir///"), &b(".bak.d")), Ok(b("dir.bak.d")));
}

#[test]
fn add_extension_resolves_trailing_dot_segment() {
    // As the platform path rules do: `foo/.` names `foo`.
    assert_eq!(add_extension(&b("foo/."), &b(".bak")), Ok(b("foo.bak")));
    assert_eq!(add_extension(&b("foo/./"), &b(".bak")), Ok(b("foo.bak")));
    assert_eq!(add_extension(&b("a/b/./."), &b(".bak.d")), Ok(b("a/b.bak.d")));
    // A name that merely ends in a dot is kept whole.
    assert_eq!(add_extension(&b("a/b."), &b(".bak")), Ok(b("a/b..bak")));
    assert_eq!(add_extension(&b("..."), &b(".bak")), Ok(b("....bak")));
}

#[test]
fn add_extension_rejects_paths_without_a_name() {
    assert_eq!(add_extension(&b("/"), &b(".bak")), Err(BakError::MalformedArtifactName));
    assert_eq!(add_extension(&b(""), &b(".bak")), Err(BakError::MalformedArtifactName));
    assert_eq!(add_extension(&b("a/.."), &b(".bak")), Err(BakError::MalformedArtifactName));
    assert_eq!(add_extension(&b("."), &b(".bak")), Err(BakError::MalformedArtifactName));
}

#[test]
fn add_extension_allows_already_suffixed_names() {
    // Re-backing-up an artifact doubles the suffix; that is accepted.
    assert_eq!(add_extension(&b("foo.bak"), &b(".bak")), Ok(b("foo.bak.bak")));
    assert_eq!(
        add_extension(&b("foo.tar.zstd"), &b(".tar.zstd")),
        Ok(b("foo.tar.zstd.tar.zstd"))
    );
}

#[test]
fn remove_extension_strips_one_suffix() {
    assert_eq!(remove_extension(&b("foo.bak"), &b("bak")), Ok(b("foo")));
    assert_eq!(remove_extension(&b("x/y.bak.d"), &b("bak.d")), Ok(b("x/y")));
}

#[test]
fn remove_extension_rejects_missing_suffix() {
    assert_eq!(remove_extension(&b("foo.txt"), &b("bak")), Err(BakError::MalformedArtifactName));
    assert_eq!(remove_extension(&b("bak"), &b("bak")), Err(BakError::MalformedArtifactName));
}

#[test]
fn naming_round_trip_on_every_suffix() {
    let base = b("dir/thing");
    for suffix in ["bak", "bak.d"] {
        let mut dotted = b(".");
        dotted.extend_from_slice(suffix.as_bytes());
        let artifact = add_extension(&base, &dotted).unwrap();
        assert_eq!(remove_extension(&artifact, &suffix.as_bytes().to_vec()), Ok(base.clone()));
    }
    let artifact = add_extension(&base, &b(".tar.zstd")).unwrap();
    assert_eq!(remove_archive_ending(&artifact), base);
}

#[test]
fn remove_archive_ending_both_variants() {
    assert_eq!(remove_archive_ending(&b("foo.tar.zstd")), b("foo"));
    assert_eq!(remove_archive_ending(&b("foo.tar.zst")), b("foo"));
    assert_eq!(remove_archive_ending(&b("foo.txt")), b("foo.txt"));
}

#[test]
fn remove_archive_ending_strips_one_layer_only() {
    // A pathological chained name loses exactly one ending.
    assert_eq!(remove_archive_ending(&b("x.tar.zst.tar.zstd")), b("x.tar.zst"));
    assert_eq!(remove_archive_ending(&b("x.tar.zstd.tar.zst")), b("x.tar.zstd"));
}
