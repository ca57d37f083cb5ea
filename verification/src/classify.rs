//! Suffix classification: an artifact's name alone decides how a restore
//! interprets it, through a closed kind produced once and matched everywhere.

use vstd::prelude::*;

use crate::errors::BakError;
use crate::naming::{
    archive_ending_long, archive_ending_long_vec, archive_ending_short, archive_ending_short_vec,
    bak_dir_suffix, bak_dir_suffix_vec, bak_suffix, bak_suffix_vec, dotted, ends_with_bytes,
    has_suffix, strip_archive_ending, trim_path, with_postfix,
};

verus! {

/// What an artifact's name says about its content format.
#[derive(Clone, Copy, Debug, PartialEq, Eq, Structural)]
pub enum ArtifactKind {
    /// `.tar.zstd` or `.tar.zst`: a compressed tar stream.
    Archive,
    /// `.bak`: a raw byte copy of one file.
    PlainFile,
    /// `.bak.d`: a mirrored directory tree.
    PlainDir,
}

/// The kind an artifact name falls under, decided by its ending alone, in
/// the order archive endings, `.bak`, `.bak.d`.
pub open spec fn classify_spec(p: Seq<u8>) -> Option<ArtifactKind> {
    if has_suffix(p, archive_ending_long()) || has_suffix(p, archive_ending_short()) {
        Some(ArtifactKind::Archive)
    } else if has_suffix(p, bak_suffix()) {
        Some(ArtifactKind::PlainFile)
    } else if has_suffix(p, bak_dir_suffix()) {
        Some(ArtifactKind::PlainDir)
    } else {
        None
    }
}

/// Decide an artifact's kind from its name; a name with no recognized
/// ending is rejected as malformed.
pub fn classify_artifact(path: &Vec<u8>) -> (r: Result<ArtifactKind, BakError>)
    ensures
        classify_spec(path@) matches Some(k) ==> r == Ok::<ArtifactKind, BakError>(k),
        classify_spec(path@) is None ==> r == Err::<ArtifactKind, BakError>(
            BakError::MalformedArtifactName,
        ),
{
    let long = archive_ending_long_vec();
    let short = archive_ending_short_vec();
    if ends_with_bytes(path, &long) || ends_with_bytes(path, &short) {
        return Ok(ArtifactKind::Archive);
    }
    if ends_with_bytes(path, &bak_suffix_vec()) {
        return Ok(ArtifactKind::PlainFile);
    }
    if ends_with_bytes(path, &bak_dir_suffix_vec()) {
        return Ok(ArtifactKind::PlainDir);
    }
    Err(BakError::MalformedArtifactName)
}

/// A byte of a suffix is found at the matching place of anything ending
/// with that suffix.
pub proof fn lemma_has_suffix_index(s: Seq<u8>, suf: Seq<u8>, i: int)
    requires
        has_suffix(s, suf),
        0 <= i < suf.len(),
    ensures
        s[s.len() - suf.len() + i] == suf[i],
{
    assert(s.subrange(s.len() - suf.len(), s.len() as int)[i] == suf[i]);
}

/// Anything of the shape `base + suffix` ends with that suffix.
pub proof fn lemma_concat_has_suffix(base: Seq<u8>, suf: Seq<u8>)
    ensures
        has_suffix(base + suf, suf),
{
    assert((base + suf).subrange(base.len() as int, (base + suf).len() as int) =~= suf);
}

/// The suffix that a backup under the given flags appends.
pub open spec fn backup_suffix(compress: bool, dir: bool) -> Seq<u8> {
    if compress {
        archive_ending_long()
    } else if dir {
        bak_dir_suffix()
    } else {
        bak_suffix()
    }
}

/// The artifact name a backup of `p` under the given flags produces.
pub open spec fn backup_artifact_name(p: Seq<u8>, compress: bool, dir: bool) -> Seq<u8> {
    with_postfix(p, backup_suffix(compress, dir))
}

/// Suffix classification is total and unambiguous over everything the backup
/// side produces: each artifact name is classified, as the kind that made it.
pub proof fn lemma_backup_artifact_classified(p: Seq<u8>, compress: bool, dir: bool)
    ensures
        compress ==> classify_spec(backup_artifact_name(p, compress, dir)) == Some(
            ArtifactKind::Archive,
        ),
        !compress && !dir ==> classify_spec(backup_artifact_name(p, compress, dir)) == Some(
            ArtifactKind::PlainFile,
        ),
        !compress && dir ==> classify_spec(backup_artifact_name(p, compress, dir)) == Some(
            ArtifactKind::PlainDir,
        ),
{
    let t = trim_path(p);
    let a = backup_artifact_name(p, compress, dir);
    lemma_concat_has_suffix(t, backup_suffix(compress, dir));
    if compress {
    } else if dir {
        // `.bak.d` is neither archive ending nor `.bak`: the next-to-last
        // byte differs from `.tar.zstd`'s, the last from the other two.
        lemma_has_suffix_index(a, bak_dir_suffix(), 5);
        lemma_has_suffix_index(a, bak_dir_suffix(), 4);
        if has_suffix(a, archive_ending_long()) {
            lemma_has_suffix_index(a, archive_ending_long(), 7);
        }
        if has_suffix(a, archive_ending_short()) {
            lemma_has_suffix_index(a, archive_ending_short(), 7);
        }
        if has_suffix(a, bak_suffix()) {
            lemma_has_suffix_index(a, bak_suffix(), 3);
        }
    } else {
        // `.bak` ends in `k`, unlike either archive ending.
        lemma_has_suffix_index(a, bak_suffix(), 3);
        if has_suffix(a, archive_ending_long()) {
            lemma_has_suffix_index(a, archive_ending_long(), 8);
        }
        if has_suffix(a, archive_ending_short()) {
            lemma_has_suffix_index(a, archive_ending_short(), 7);
        }
    }
}

/// Naming round trip, plain suffixes: appending `.` + `suffix` to a path and
/// stripping it again gives back the trimmed path.
pub proof fn lemma_plain_suffix_round_trip(p: Seq<u8>, suffix: Seq<u8>)
    ensures
        has_suffix(with_postfix(p, dotted(suffix)), dotted(suffix)),
        with_postfix(p, dotted(suffix)).take(
            with_postfix(p, dotted(suffix)).len() - dotted(suffix).len(),
        ) == trim_path(p),
{
    let t = trim_path(p);
    let d = dotted(suffix);
    lemma_concat_has_suffix(t, d);
    assert((t + d).take((t + d).len() - d.len()) =~= t);
}

/// Naming round trip, long archive ending: appending `.tar.zstd` and
/// stripping the archive ending gives back the trimmed path.
pub proof fn lemma_archive_ending_round_trip(p: Seq<u8>)
    ensures
        strip_archive_ending(with_postfix(p, archive_ending_long())) == trim_path(p),
{
    let t = trim_path(p);
    lemma_concat_has_suffix(t, archive_ending_long());
    let a = t + archive_ending_long();
    assert(a.take(a.len() - archive_ending_long().len()) =~= t);
}

/// The short archive ending is stripped the same way: a name ending in
/// `.tar.zst` cannot also end in `.tar.zstd`, so exactly it is removed.
pub proof fn lemma_short_ending_round_trip(p: Seq<u8>)
    ensures
        strip_archive_ending(with_postfix(p, archive_ending_short())) == trim_path(p),
{
    let t = trim_path(p);
    lemma_concat_has_suffix(t, archive_ending_short());
    let a = t + archive_ending_short();
    if has_suffix(a, archive_ending_long()) {
        lemma_has_suffix_index(a, archive_ending_long(), 8);
        lemma_has_suffix_index(a, archive_ending_short(), 7);
        assert(false);
    }
    assert(a.take(a.len() - archive_ending_short().len()) =~= t);
}

} // verus!
