use bakr::archive::{make_archive, read_archive, ArchiveEntry};
use bakr::errors::BakError;
use bakr::orchestrate::{backup, backup_dir, backup_file, restore, BackupAction, PathKind, RestoreAction};

fn b(s: &str) -> Vec<u8> {
    s.as_bytes().to_vec()
}

#[test]
fn plain_file_backup_and_restore_names() {
    // A file `foo` backs up to `foo.bak`, which restores to `./foo`.
    let plan = backup(&b("foo"), PathKind::File, false).unwrap();
    assert_eq!(plan.artifact, b("foo.bak"));
    assert_eq!(plan.action, BackupAction::CopyFile);

    let back = restore(&plan.artifact, PathKind::File, &b("."), PathKind::Dir).unwrap();
    assert_eq!(back.target, b("./foo"));
    assert_eq!(back.action, RestoreAction::CopyFile);
}

#[test]
fn plain_directory_backup_and_restore_names() {
    // A tree `ichi` backs up to `ichi.bak.d`, which restores into its parent.
    let plan = backup(&b("ichi"), PathKind::Dir, false).unwrap();
    assert_eq!(plan.artifact, b("ichi.bak.d"));
    assert_eq!(plan.action, BackupAction::CopyTree);

    let back = restore(&plan.artifact, PathKind::Dir, &b("parent"), PathKind::Dir).unwrap();
    assert_eq!(back.target, b("parent/ichi"));
    assert_eq!(back.action, RestoreAction::CopyTree);
}

#[test]
fn compressed_file_backup_and_restore() {
    // `foo` backs up to `foo.tar.zstd`; restoring into `outdir` lands on
    // `outdir/foo`, and the packed bytes carry the content through.
    let plan = backup(&b("foo"), PathKind::File, true).unwrap();
    assert_eq!(plan.artifact, b("foo.tar.zstd"));
    assert_eq!(plan.action, BackupAction::ArchiveFile);

    let content = vec![b'A'; 43];
    let entries = vec![ArchiveEntry { path: b("foo"), content: Some(content.clone()) }];
    let archive = make_archive(&entries).unwrap();
    let unpacked = read_archive(&archive).unwrap();
    assert_eq!(unpacked.len(), 1);
    assert_eq!(unpacked[0].path, b("foo"));
    assert_eq!(unpacked[0].content.as_ref().unwrap(), &content);

    let back = restore(&plan.artifact, PathKind::File, &b("outdir"), PathKind::Dir).unwrap();
    assert_eq!(back.target, b("outdir/foo"));
    assert_eq!(back.action, RestoreAction::Unpack);
}

#[test]
fn compressed_directory_backup_names() {
    let plan = backup(&b("ichi"), PathKind::Dir, true).unwrap();
    assert_eq!(plan.artifact, b("ichi.tar.zstd"));
    assert_eq!(plan.action, BackupAction::ArchiveDir);
}

#[test]
fn short_archive_ending_restores_like_the_long_one() {
    let long = restore(&b("x.tar.zstd"), PathKind::File, &b("o"), PathKind::Dir).unwrap();
    let short = restore(&b("x.tar.zst"), PathKind::File, &b("o"), PathKind::Dir).unwrap();
    assert_eq!(long.target, b("o/x"));
    assert_eq!(short.target, b("o/x"));
    assert_eq!(long.action, RestoreAction::Unpack);
    assert_eq!(short.action, RestoreAction::Unpack);
}

#[test]
fn unrecognized_ending_is_rejected_before_any_action() {
    let r = restore(&b("foo.weird"), PathKind::File, &b("."), PathKind::Dir);
    assert_eq!(r.unwrap_err(), BakError::MalformedArtifactName);
    let r = restore(&b("foo"), PathKind::File, &b("."), PathKind::Dir);
    assert_eq!(r.unwrap_err(), BakError::MalformedArtifactName);
}

#[test]
fn restore_validates_paths_first() {
    // Missing artifact, missing output, output not a directory.
    let r = restore(&b("foo.bak"), PathKind::Missing, &b("."), PathKind::Dir);
    assert_eq!(r.unwrap_err(), BakError::NotFound);
    let r = restore(&b("foo.bak"), PathKind::File, &b("out"), PathKind::Missing);
    assert_eq!(r.unwrap_err(), BakError::NotFound);
    let r = restore(&b("foo.bak"), PathKind::File, &b("out"), PathKind::File);
    assert_eq!(r.unwrap_err(), BakError::NotFound);
}

#[test]
fn suffix_and_disk_type_must_agree() {
    let r = restore(&b("foo.bak"), PathKind::Dir, &b("."), PathKind::Dir);
    assert_eq!(r.unwrap_err(), BakError::WrongType);
    let r = restore(&b("d.bak.d"), PathKind::File, &b("."), PathKind::Dir);
    assert_eq!(r.unwrap_err(), BakError::WrongType);
    let r = restore(&b("a.tar.zstd"), PathKind::Dir, &b("."), PathKind::Dir);
    assert_eq!(r.unwrap_err(), BakError::WrongType);
}

#[test]
fn backup_validates_the_source() {
    assert_eq!(backup(&b("gone"), PathKind::Missing, false).unwrap_err(), BakError::NotFound);
    assert_eq!(backup(&b("sock"), PathKind::Other, false).unwrap_err(), BakError::WrongType);
    assert_eq!(backup_file(&b("/"), false).unwrap_err(), BakError::MalformedArtifactName);
    assert_eq!(backup_dir(&b("//"), true).unwrap_err(), BakError::MalformedArtifactName);
}

#[test]
fn backup_is_not_idempotent_by_design() {
    // Backing an artifact up again stacks suffixes; the artifact name of a
    // repeated backup of the same source collides with the first one.
    let first = backup_file(&b("foo"), false).unwrap();
    let again = backup_file(&b("foo"), false).unwrap();
    assert_eq!(first.artifact, again.artifact);
    let stacked = backup_file(&first.artifact, false).unwrap();
    assert_eq!(stacked.artifact, b("foo.bak.bak"));
}

#[test]
fn restore_target_keeps_only_the_file_name() {
    // The target is the artifact's base file name inside the output
    // directory, wherever the artifact lay.
    let r = restore(&b("deep/dir/foo.bak"), PathKind::File, &b("out"), PathKind::Dir).unwrap();
    assert_eq!(r.target, b("out/foo"));
    let r = restore(&b("deep/foo.tar.zstd"), PathKind::File, &b("out/"), PathKind::Dir).unwrap();
    assert_eq!(r.target, b("out/foo"));
}

#[test]
fn restore_rejects_artifact_that_is_all_suffix() {
    let r = restore(&b(".bak"), PathKind::File, &b("."), PathKind::Dir);
    assert_eq!(r.unwrap_err(), BakError::MalformedArtifactName);
    let r = restore(&b(".tar.zstd"), PathKind::File, &b("."), PathKind::Dir);
    assert_eq!(r.unwrap_err(), BakError::MalformedArtifactName);
}
