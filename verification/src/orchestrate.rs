//! Backup and restore orchestration: validate what the filesystem reports of
//! the paths involved, pick the artifact or target name through the naming
//! rules, and decide which data-movement strategy runs. The filesystem work
//! itself — copying, walking, unpacking onto disk — is carried out by the
//! caller on the returned plan.

use vstd::prelude::*;

use crate::classify::{
    backup_artifact_name, classify_artifact, classify_spec, lemma_archive_ending_round_trip,
    lemma_backup_artifact_classified, ArtifactKind,
};
use crate::errors::BakError;
use crate::naming::{
    add_extension, archive_ending_long_vec, bak_dir_suffix, bak_dir_suffix_vec, bak_suffix,
    bak_suffix_vec, copy_range, dotted, file_name_of, has_file_name, push_all,
    remove_archive_ending, remove_extension, split_file_name, strip_archive_ending, trim_path,
    lemma_trim_idempotent,
};
use crate::SLASH;

verus! {

/// What the filesystem reports of a path: a regular file, a directory,
/// something else, or nothing at all.
#[derive(Clone, Copy, Debug, PartialEq, Eq, Structural)]
pub enum PathKind {
    File,
    Dir,
    Other,
    Missing,
}

/// The data movement a backup performs.
#[derive(Clone, Copy, Debug, PartialEq, Eq, Structural)]
pub enum BackupAction {
    /// Copy the file's bytes to the artifact path.
    CopyFile,
    /// Mirror the directory tree under the artifact path.
    CopyTree,
    /// Pack the single file into a compressed archive.
    ArchiveFile,
    /// Pack the directory tree into a compressed archive.
    ArchiveDir,
}

/// The data movement a restore performs.
#[derive(Clone, Copy, Debug, PartialEq, Eq, Structural)]
pub enum RestoreAction {
    /// Unpack the compressed archive into the output directory.
    Unpack,
    /// Copy the artifact's bytes to the target path.
    CopyFile,
    /// Mirror the artifact's tree under the target path.
    CopyTree,
}

/// What a backup resolves to: where the artifact goes, and how.
#[derive(Clone, Debug)]
pub struct BackupPlan {
    pub artifact: Vec<u8>,
    pub action: BackupAction,
}

/// What a restore resolves to: where the restored data goes, and how.
#[derive(Clone, Debug)]
pub struct RestorePlan {
    pub target: Vec<u8>,
    pub action: RestoreAction,
}

/// What a backup of a path of this kind resolves to, or the error that
/// rejects it: a missing source is not found, a source that is neither file
/// nor directory cannot be handled, and a path with no final segment cannot
/// be named.
pub open spec fn backup_spec(p: Seq<u8>, pk: PathKind, compress: bool) -> Result<
    (Seq<u8>, BackupAction),
    BakError,
> {
    match pk {
        PathKind::Missing => Err(BakError::NotFound),
        PathKind::Other => Err(BakError::WrongType),
        PathKind::File => if has_file_name(p) {
            Ok(
                (
                    backup_artifact_name(p, compress, false),
                    if compress {
                        BackupAction::ArchiveFile
                    } else {
                        BackupAction::CopyFile
                    },
                ),
            )
        } else {
            Err(BakError::MalformedArtifactName)
        },
        PathKind::Dir => if has_file_name(p) {
            Ok(
                (
                    backup_artifact_name(p, compress, true),
                    if compress {
                        BackupAction::ArchiveDir
                    } else {
                        BackupAction::CopyTree
                    },
                ),
            )
        } else {
            Err(BakError::MalformedArtifactName)
        },
    }
}

/// Plan the backup of one file: `.tar.zstd` beside it when compressing,
/// `.bak` otherwise.
pub fn backup_file(path: &Vec<u8>, compress: bool) -> (r: Result<BackupPlan, BakError>)
    ensures
        r matches Ok(plan) ==> backup_spec(path@, PathKind::File, compress) == Ok::<
            (Seq<u8>, BackupAction),
            BakError,
        >((plan.artifact@, plan.action)),
        r matches Err(e) ==> backup_spec(path@, PathKind::File, compress) == Err::<
            (Seq<u8>, BackupAction),
            BakError,
        >(e),
{
    let suffix = if compress {
        archive_ending_long_vec()
    } else {
        bak_suffix_vec()
    };
    match add_extension(path, &suffix) {
        Ok(artifact) => Ok(
            BackupPlan {
                artifact,
                action: if compress {
                    BackupAction::ArchiveFile
                } else {
                    BackupAction::CopyFile
                },
            },
        ),
        Err(e) => Err(e),
    }
}

/// Plan the backup of one directory: `.tar.zstd` beside it when compressing,
/// `.bak.d` otherwise.
pub fn backup_dir(path: &Vec<u8>, compress: bool) -> (r: Result<BackupPlan, BakError>)
    ensures
        r matches Ok(plan) ==> backup_spec(path@, PathKind::Dir, compress) == Ok::<
            (Seq<u8>, BackupAction),
            BakError,
        >((plan.artifact@, plan.action)),
        r matches Err(e) ==> backup_spec(path@, PathKind::Dir, compress) == Err::<
            (Seq<u8>, BackupAction),
            BakError,
        >(e),
{
    let suffix = if compress {
        archive_ending_long_vec()
    } else {
        bak_dir_suffix_vec()
    };
    match add_extension(path, &suffix) {
        Ok(artifact) => Ok(
            BackupPlan {
                artifact,
                action: if compress {
                    BackupAction::ArchiveDir
                } else {
                    BackupAction::CopyTree
                },
            },
        ),
        Err(e) => Err(e),
    }
}

/// Plan a backup: validate what is on disk, dispatch on file or directory,
/// and name the artifact.
pub fn backup(path: &Vec<u8>, kind: PathKind, compress: bool) -> (r: Result<BackupPlan, BakError>)
    ensures
        r matches Ok(plan) ==> backup_spec(path@, kind, compress) == Ok::<
            (Seq<u8>, BackupAction),
            BakError,
        >((plan.artifact@, plan.action)),
        r matches Err(e) ==> backup_spec(path@, kind, compress) == Err::<
            (Seq<u8>, BackupAction),
            BakError,
        >(e),
{
    match kind {
        PathKind::Missing => Err(BakError::NotFound),
        PathKind::Other => Err(BakError::WrongType),
        PathKind::File => backup_file(path, compress),
        PathKind::Dir => backup_dir(path, compress),
    }
}

/// Does what is on disk match what the artifact's name announces? Archives
/// and `.bak` artifacts are regular files, `.bak.d` artifacts directories.
pub open spec fn kind_matches(k: ArtifactKind, pk: PathKind) -> bool {
    match k {
        ArtifactKind::Archive => pk == PathKind::File,
        ArtifactKind::PlainFile => pk == PathKind::File,
        ArtifactKind::PlainDir => pk == PathKind::Dir,
    }
}

/// How each artifact kind is restored.
pub open spec fn restore_action_of(k: ArtifactKind) -> RestoreAction {
    match k {
        ArtifactKind::Archive => RestoreAction::Unpack,
        ArtifactKind::PlainFile => RestoreAction::CopyFile,
        ArtifactKind::PlainDir => RestoreAction::CopyTree,
    }
}

/// The artifact's name with its classified ending stripped.
pub open spec fn restored_base(p: Seq<u8>, k: ArtifactKind) -> Seq<u8> {
    match k {
        ArtifactKind::Archive => strip_archive_ending(p),
        ArtifactKind::PlainFile => p.take(p.len() - bak_suffix().len()),
        ArtifactKind::PlainDir => p.take(p.len() - bak_dir_suffix().len()),
    }
}

/// `name` placed inside the directory `dir`.
pub open spec fn join_path(dir: Seq<u8>, name: Seq<u8>) -> Seq<u8> {
    if dir.len() == 0 {
        name
    } else if dir[dir.len() - 1] == SLASH {
        dir + name
    } else {
        dir + seq![SLASH] + name
    }
}

/// What a restore resolves to, or the error that rejects it: artifact and
/// output directory must be there and the output a directory, the artifact's
/// ending must be recognized and match what is on disk, and stripping the
/// ending must leave a usable name for the target.
pub open spec fn restore_spec(p: Seq<u8>, pk: PathKind, out: Seq<u8>, ok: PathKind) -> Result<
    (Seq<u8>, RestoreAction),
    BakError,
> {
    if pk == PathKind::Missing {
        Err(BakError::NotFound)
    } else if ok != PathKind::Dir {
        Err(BakError::NotFound)
    } else {
        match classify_spec(p) {
            None => Err(BakError::MalformedArtifactName),
            Some(k) => if !kind_matches(k, pk) {
                Err(BakError::WrongType)
            } else if !has_file_name(restored_base(p, k)) {
                Err(BakError::MalformedArtifactName)
            } else {
                Ok((join_path(out, file_name_of(restored_base(p, k))), restore_action_of(k)))
            },
        }
    }
}

/// Plan a restore: validate the artifact and the output directory, classify
/// the artifact by its ending, check the ending against what is on disk, and
/// derive the restored target's path.
pub fn restore(path: &Vec<u8>, path_kind: PathKind, output_dir: &Vec<u8>, output_kind: PathKind) -> (r:
    Result<RestorePlan, BakError>)
    ensures
        r matches Ok(plan) ==> restore_spec(path@, path_kind, output_dir@, output_kind) == Ok::<
            (Seq<u8>, RestoreAction),
            BakError,
        >((plan.target@, plan.action)),
        r matches Err(e) ==> restore_spec(path@, path_kind, output_dir@, output_kind) == Err::<
            (Seq<u8>, RestoreAction),
            BakError,
        >(e),
{
    match path_kind {
        PathKind::Missing => {
            return Err(BakError::NotFound);
        },
        _ => (),
    }
    match output_kind {
        PathKind::Dir => (),
        _ => {
            return Err(BakError::NotFound);
        },
    }
    let kind = match classify_artifact(path) {
        Ok(k) => k,
        Err(e) => {
            return Err(e);
        },
    };
    let on_disk_matches = match (kind, path_kind) {
        (ArtifactKind::Archive, PathKind::File) => true,
        (ArtifactKind::PlainFile, PathKind::File) => true,
        (ArtifactKind::PlainDir, PathKind::Dir) => true,
        _ => false,
    };
    if !on_disk_matches {
        return Err(BakError::WrongType);
    }
    let base = match kind {
        ArtifactKind::Archive => remove_archive_ending(path),
        ArtifactKind::PlainFile => {
            let suffix = copy_range(&bak_suffix_vec(), 1, 4);
            proof {
                assert(dotted(suffix@) =~= bak_suffix());
            }
            match remove_extension(path, &suffix) {
                Ok(b) => b,
                Err(e) => {
                    proof {
                        assert(false);
                    }
                    return Err(e);
                },
            }
        },
        ArtifactKind::PlainDir => {
            let suffix = copy_range(&bak_dir_suffix_vec(), 1, 6);
            proof {
                assert(dotted(suffix@) =~= bak_dir_suffix());
            }
            match remove_extension(path, &suffix) {
                Ok(b) => b,
                Err(e) => {
                    proof {
                        assert(false);
                    }
                    return Err(e);
                },
            }
        },
    };
    proof {
        assert(base@ == restored_base(path@, kind));
    }
    let action = match kind {
        ArtifactKind::Archive => RestoreAction::Unpack,
        ArtifactKind::PlainFile => RestoreAction::CopyFile,
        ArtifactKind::PlainDir => RestoreAction::CopyTree,
    };
    match split_file_name(&base) {
        None => Err(BakError::MalformedArtifactName),
        Some((i, n)) => {
            let name = copy_range(&base, i, n);
            proof {
                assert(trim_path(base@).skip(i as int) =~= base@.subrange(i as int, n as int));
            }
            let mut target = copy_range(output_dir, 0, output_dir.len());
            proof {
                assert(target@ =~= output_dir@);
            }
            if output_dir.len() > 0 && output_dir[output_dir.len() - 1] != SLASH {
                target.push(SLASH);
                proof {
                    assert(target@ =~= output_dir@ + seq![SLASH]);
                }
            }
            push_all(&mut target, &name);
            proof {
                assert(target@ == join_path(output_dir@, file_name_of(base@)));
            }
            Ok(RestorePlan { target, action })
        },
    }
}

/// Backing up and then restoring agree end to end on names and strategies:
/// the artifact that a backup of a source with a usable name plans is
/// classified back to the matching restore action, and the restored target
/// is the source's own file name inside the chosen output directory.
pub proof fn lemma_backup_then_restore(p: Seq<u8>, compress: bool, dir: bool, out: Seq<u8>)
    requires
        has_file_name(p),
    ensures
        ({
            let artifact = backup_artifact_name(p, compress, dir);
            let on_disk = if !compress && dir {
                PathKind::Dir
            } else {
                PathKind::File
            };
            let action = if compress {
                RestoreAction::Unpack
            } else if dir {
                RestoreAction::CopyTree
            } else {
                RestoreAction::CopyFile
            };
            restore_spec(artifact, on_disk, out, PathKind::Dir) == Ok::<
                (Seq<u8>, RestoreAction),
                BakError,
            >((join_path(out, file_name_of(p)), action))
        }),
{
    let t = trim_path(p);
    let artifact = backup_artifact_name(p, compress, dir);
    lemma_backup_artifact_classified(p, compress, dir);
    if compress {
        lemma_archive_ending_round_trip(p);
    } else if dir {
        assert(artifact.take(artifact.len() - bak_dir_suffix().len()) =~= t);
    } else {
        assert(artifact.take(artifact.len() - bak_suffix().len()) =~= t);
    }
    lemma_trim_idempotent(p);
}

} // verus!
