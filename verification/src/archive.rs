//! Compressed archives on in-memory byte streams: an ordered member list is
//! packed into a tar stream wrapped in a zstd frame, and unpacked back. The
//! tar serializer and the compression codec are outside collaborators; the
//! library states what each call returns and proves the round trip over
//! those statements.

use vstd::prelude::*;

use crate::errors::BakError;
use crate::{BACKSLASH, DOT, SLASH};

verus! {

/// One member of an archive: a path relative to the archive root, and the
/// member's bytes for a regular file, or nothing for a directory.
#[derive(Clone, Debug, PartialEq, Eq)]
pub struct ArchiveEntry {
    pub path: Vec<u8>,
    pub content: Option<Vec<u8>>,
}

impl View for ArchiveEntry {
    type V = (Seq<u8>, Option<Seq<u8>>);

    open spec fn view(&self) -> (Seq<u8>, Option<Seq<u8>>) {
        (
            self.path@,
            match self.content {
                Option::Some(c) => Option::Some(c@),
                Option::None => Option::None,
            },
        )
    }
}

/// The members of an entry list, as plain values.
pub open spec fn entries_view(s: Seq<ArchiveEntry>) -> Seq<(Seq<u8>, Option<Seq<u8>>)> {
    s.map_values(|e: ArchiveEntry| e@)
}

/// Is `b` a UTF-8 continuation byte?
pub open spec fn is_utf8_cont(b: u8) -> bool {
    0x80 <= b < 0xC0
}

/// Length of the well-formed UTF-8 sequence starting at `i`, or 0 when no
/// well-formed sequence starts there. The ranges follow the UTF-8 definition
/// exactly: overlong forms, surrogates and values past U+10FFFF are refused.
pub open spec fn utf8_seq_len(p: Seq<u8>, i: int) -> int {
    if i + 1 <= p.len() && p[i] < 0x80 {
        1
    } else if i + 2 <= p.len() && 0xC2 <= p[i] <= 0xDF && is_utf8_cont(p[i + 1]) {
        2
    } else if i + 3 <= p.len() && p[i] == 0xE0 && 0xA0 <= p[i + 1] <= 0xBF && is_utf8_cont(
        p[i + 2],
    ) {
        3
    } else if i + 3 <= p.len() && 0xE1 <= p[i] <= 0xEC && is_utf8_cont(p[i + 1]) && is_utf8_cont(
        p[i + 2],
    ) {
        3
    } else if i + 3 <= p.len() && p[i] == 0xED && 0x80 <= p[i + 1] <= 0x9F && is_utf8_cont(
        p[i + 2],
    ) {
        3
    } else if i + 3 <= p.len() && 0xEE <= p[i] <= 0xEF && is_utf8_cont(p[i + 1]) && is_utf8_cont(
        p[i + 2],
    ) {
        3
    } else if i + 4 <= p.len() && p[i] == 0xF0 && 0x90 <= p[i + 1] <= 0xBF && is_utf8_cont(
        p[i + 2],
    ) && is_utf8_cont(p[i + 3]) {
        4
    } else if i + 4 <= p.len() && 0xF1 <= p[i] <= 0xF3 && is_utf8_cont(p[i + 1]) && is_utf8_cont(
        p[i + 2],
    ) && is_utf8_cont(p[i + 3]) {
        4
    } else if i + 4 <= p.len() && p[i] == 0xF4 && 0x80 <= p[i + 1] <= 0x8F && is_utf8_cont(
        p[i + 2],
    ) && is_utf8_cont(p[i + 3]) {
        4
    } else {
        0
    }
}

/// The bytes from `i` on parse as a chain of well-formed UTF-8 sequences.
pub open spec fn valid_utf8_from(p: Seq<u8>, i: int) -> bool
    decreases p.len() - i,
{
    i >= p.len() || {
        let n = utf8_seq_len(p, i);
        0 < n && i + n <= p.len() && valid_utf8_from(p, i + n)
    }
}

/// The whole byte string is well-formed UTF-8.
pub open spec fn valid_utf8(p: Seq<u8>) -> bool {
    valid_utf8_from(p, 0)
}

/// What a clean path asks of the byte at `j` and its neighbours: no NUL, no
/// backslash (a separator on some platforms, which the tar crate then
/// rewrites), no doubled separator, and no `.` or `..` standing as a whole
/// segment there.
pub open spec fn clean_byte_at(p: Seq<u8>, j: int) -> bool {
    &&& p[j] != 0
    &&& p[j] != BACKSLASH
    &&& !(0 < j && p[j] == SLASH && p[j - 1] == SLASH)
    &&& ((j == 0 || p[j - 1] == SLASH) && (j == p.len() - 1 || p[j + 1] == SLASH) ==> p[j] != DOT)
    &&& ((j == 0 || p[j - 1] == SLASH) && j + 1 < p.len() && (j + 1 == p.len() - 1 || p[j + 2]
        == SLASH) ==> !(p[j] == DOT && p[j + 1] == DOT))
}

/// A path the tar format stores verbatim on every platform: nonempty
/// well-formed UTF-8 without NUL or backslash, relative, with single
/// separators and no `.` or `..` segment.
pub open spec fn clean_entry_path(p: Seq<u8>) -> bool {
    &&& 0 < p.len()
    &&& p[0] != SLASH
    &&& p[p.len() - 1] != SLASH
    &&& valid_utf8(p)
    &&& forall|j: int| 0 <= j < p.len() ==> #[trigger] clean_byte_at(p, j)
}

/// All members of a list have clean paths.
pub open spec fn clean_entries(es: Seq<(Seq<u8>, Option<Seq<u8>>)>) -> bool {
    forall|i: int| 0 <= i < es.len() ==> clean_entry_path(#[trigger] es[i].0)
}

/// Measure the well-formed UTF-8 sequence starting at `i`, 0 when there is
/// none.
fn utf8_seq_len_at(p: &Vec<u8>, i: usize) -> (r: usize)
    requires
        i < p@.len(),
    ensures
        r == utf8_seq_len(p@, i as int),
        r > 0 ==> i + r <= p@.len(),
{
    let n = p.len();
    let b0 = p[i];
    if b0 < 0x80 {
        1
    } else if 0xC2 <= b0 && b0 <= 0xDF {
        if i + 1 < n && is_cont(p[i + 1]) {
            2
        } else {
            0
        }
    } else if b0 == 0xE0 {
        if n - i > 2 && 0xA0 <= p[i + 1] && p[i + 1] <= 0xBF && is_cont(p[i + 2]) {
            3
        } else {
            0
        }
    } else if 0xE1 <= b0 && b0 <= 0xEC {
        if n - i > 2 && is_cont(p[i + 1]) && is_cont(p[i + 2]) {
            3
        } else {
            0
        }
    } else if b0 == 0xED {
        if n - i > 2 && 0x80 <= p[i + 1] && p[i + 1] <= 0x9F && is_cont(p[i + 2]) {
            3
        } else {
            0
        }
    } else if 0xEE <= b0 && b0 <= 0xEF {
        if n - i > 2 && is_cont(p[i + 1]) && is_cont(p[i + 2]) {
            3
        } else {
            0
        }
    } else if b0 == 0xF0 {
        if n - i > 3 && 0x90 <= p[i + 1] && p[i + 1] <= 0xBF && is_cont(p[i + 2]) && is_cont(
            p[i + 3],
        ) {
            4
        } else {
            0
        }
    } else if 0xF1 <= b0 && b0 <= 0xF3 {
        if n - i > 3 && is_cont(p[i + 1]) && is_cont(p[i + 2]) && is_cont(p[i + 3]) {
            4
        } else {
            0
        }
    } else if b0 == 0xF4 {
        if n - i > 3 && 0x80 <= p[i + 1] && p[i + 1] <= 0x8F && is_cont(p[i + 2]) && is_cont(
            p[i + 3],
        ) {
            4
        } else {
            0
        }
    } else {
        0
    }
}

/// Is `b` a UTF-8 continuation byte?
fn is_cont(b: u8) -> (r: bool)
    ensures
        r == is_utf8_cont(b),
{
    0x80 <= b && b < 0xC0
}

/// Check that the bytes are well-formed UTF-8.
fn is_valid_utf8(p: &Vec<u8>) -> (r: bool)
    ensures
        r == valid_utf8(p@),
{
    let mut i: usize = 0;
    while i < p.len()
        invariant
            i <= p@.len(),
            valid_utf8(p@) == valid_utf8_from(p@, i as int),
        decreases p@.len() - i,
    {
        let n = utf8_seq_len_at(p, i);
        if n == 0 {
            return false;
        }
        i += n;
    }
    true
}

/// Check whether the tar format stores this path verbatim.
pub fn is_clean_entry_path(p: &Vec<u8>) -> (r: bool)
    ensures
        r == clean_entry_path(p@),
{
    let n = p.len();
    if n == 0 {
        return false;
    }
    if p[0] == SLASH || p[n - 1] == SLASH {
        return false;
    }
    let mut i: usize = 0;
    while i < n
        invariant
            n == p@.len(),
            0 < n,
            i <= n,
            forall|j: int| 0 <= j < i ==> #[trigger] clean_byte_at(p@, j),
        decreases n - i,
    {
        let b = p[i];
        if b == 0 || b == BACKSLASH {
            proof {
                assert(!clean_byte_at(p@, i as int));
            }
            return false;
        }
        if b == SLASH && i > 0 && p[i - 1] == SLASH {
            proof {
                assert(!clean_byte_at(p@, i as int));
            }
            return false;
        }
        if b == DOT && (i == 0 || p[i - 1] == SLASH) {
            if i == n - 1 || p[i + 1] == SLASH {
                proof {
                    assert(!clean_byte_at(p@, i as int));
                }
                return false;
            }
            if p[i + 1] == DOT && (i + 1 == n - 1 || p[i + 2] == SLASH) {
                proof {
                    assert(!clean_byte_at(p@, i as int));
                }
                return false;
            }
        }
        proof {
            assert(clean_byte_at(p@, i as int));
        }
        i += 1;
    }
    is_valid_utf8(p)
}

/// The bytes of the tar stream holding exactly these members, in order.
pub uninterp spec fn tar_stream(es: Seq<(Seq<u8>, Option<Seq<u8>>)>) -> Seq<u8>;

/// The members appended so far to a tar builder.
pub uninterp spec fn tar_members(b: TarPacker) -> Seq<(Seq<u8>, Option<Seq<u8>>)>;

/// The zstd frame that compressing these bytes at the default level yields.
pub uninterp spec fn zstd_frame(data: Seq<u8>) -> Seq<u8>;

/// The archive bytes a backup of these members produces: their tar stream,
/// compressed.
pub open spec fn archive_bytes_of(es: Seq<(Seq<u8>, Option<Seq<u8>>)>) -> Seq<u8> {
    zstd_frame(tar_stream(es))
}

/// A tar stream being built up in memory, member by member. The builder of
/// the tar crate inside is opaque to the verifier; what it holds is spoken
/// of through `tar_members`.
#[verifier::external_body]
pub struct TarPacker {
    inner: tar::Builder<Vec<u8>>,
}

/// Relies on tar::Builder::new: a fresh builder over an empty buffer has no
/// members appended yet.
#[verifier::external_body]
fn tar_builder_new() -> (r: TarPacker)
    ensures
        tar_members(r) == Seq::<(Seq<u8>, Option<Seq<u8>>)>::empty(),
{
    TarPacker { inner: tar::Builder::new(Vec::new()) }
}

/// Relies on tar::Builder::append_data: appends one regular-file member with
/// the given relative path and contents; a clean UTF-8 path is stored
/// verbatim, and writing into the in-memory buffer has no failure path.
#[verifier::external_body]
fn tar_append_file(b: &mut TarPacker, path: &Vec<u8>, data: &Vec<u8>)
    requires
        clean_entry_path(path@),
    ensures
        tar_members(*final(b)) == tar_members(*old(b)).push((path@, Some(data@))),
{
    let mut h = tar::Header::new_gnu();
    h.set_entry_type(tar::EntryType::file());
    h.set_mode(0o644);
    h.set_size(data.len() as u64);
    let name = String::from_utf8_lossy(path.as_slice()).into_owned();
    b.inner.append_data(&mut h, name, data.as_slice()).expect(
        "appending a clean member to a tar buffer in memory cannot fail",
    );
}

/// Relies on tar::Builder::append_data: appends one directory member with
/// the given relative path and no contents; writing into the in-memory
/// buffer has no failure path.
#[verifier::external_body]
fn tar_append_dir(b: &mut TarPacker, path: &Vec<u8>)
    requires
        clean_entry_path(path@),
    ensures
        tar_members(*final(b)) == tar_members(*old(b)).push((path@, None)),
{
    let mut h = tar::Header::new_gnu();
    h.set_entry_type(tar::EntryType::dir());
    h.set_mode(0o755);
    h.set_size(0);
    let name = String::from_utf8_lossy(path.as_slice()).into_owned();
    b.inner.append_data(&mut h, name, std::io::empty()).expect(
        "appending a clean member to a tar buffer in memory cannot fail",
    );
}

/// Relies on tar::Builder::into_inner: finishes the archive, trailer
/// included, and hands back the buffer; the bytes are a function of the
/// appended members alone, and the trailer write into memory cannot fail.
#[verifier::external_body]
fn tar_into_bytes(b: TarPacker) -> (r: Vec<u8>)
    ensures
        r@ == tar_stream(tar_members(b)),
{
    b.inner.into_inner().expect("finishing a tar buffer in memory cannot fail")
}

/// Relies on tar::Archive and tar::Entry: reading back a stream that
/// tar::Builder wrote from clean paths yields the same members in order,
/// each with its path and, for a regular file, its contents; a stream it
/// cannot read is reported corrupt.
#[verifier::external_body]
fn tar_read_entries(data: &Vec<u8>) -> (r: Result<Vec<ArchiveEntry>, BakError>)
    ensures
        r matches Ok(v) ==> forall|es: Seq<(Seq<u8>, Option<Seq<u8>>)>|
            clean_entries(es) && data@ == #[trigger] tar_stream(es) ==> entries_view(v@) == es,
        r is Err ==> forall|es: Seq<(Seq<u8>, Option<Seq<u8>>)>|
            clean_entries(es) ==> data@ != #[trigger] tar_stream(es),
        r matches Err(e) ==> e == BakError::ArchiveCorrupt,
{
    let mut archive = tar::Archive::new(data.as_slice());
    let mut out: Vec<ArchiveEntry> = Vec::new();
    for entry in archive.entries().map_err(|_| BakError::ArchiveCorrupt)? {
        let mut entry = entry.map_err(|_| BakError::ArchiveCorrupt)?;
        let path = entry.path_bytes().into_owned();
        if entry.header().entry_type().is_dir() {
            out.push(ArchiveEntry { path, content: None });
        } else {
            let mut c = Vec::new();
            std::io::Read::read_to_end(&mut entry, &mut c).map_err(|_| BakError::ArchiveCorrupt)?;
            out.push(ArchiveEntry { path, content: Some(c) });
        }
    }
    Ok(out)
}

/// Relies on zstd::stream::encode_all: compresses bytes into one zstd frame
/// at the default compression level; same bytes, same frame, and compressing
/// from memory to memory has no failure path.
#[verifier::external_body]
fn zstd_encode(data: &Vec<u8>) -> (r: Vec<u8>)
    ensures
        r@ == zstd_frame(data@),
{
    zstd::stream::encode_all(data.as_slice(), zstd::DEFAULT_COMPRESSION_LEVEL).expect(
        "compressing a buffer in memory cannot fail",
    )
}

/// Relies on zstd::stream::decode_all: decompressing a frame that encode_all
/// produced yields the original bytes; other input is reported corrupt.
#[verifier::external_body]
fn zstd_decode(data: &Vec<u8>) -> (r: Result<Vec<u8>, BakError>)
    ensures
        r matches Ok(v) ==> forall|orig: Seq<u8>|
            data@ == #[trigger] zstd_frame(orig) ==> v@ == orig,
        r is Err ==> forall|orig: Seq<u8>| data@ != #[trigger] zstd_frame(orig),
        r matches Err(e) ==> e == BakError::ArchiveCorrupt,
{
    zstd::stream::decode_all(data.as_slice()).map_err(|_| BakError::ArchiveCorrupt)
}

/// Pack the members into one compressed archive: their tar stream, wrapped
/// in a zstd frame. A member whose path the tar format would not store
/// verbatim is rejected as malformed before anything is packed; on clean
/// member paths the archive is owed.
pub fn make_archive(entries: &Vec<ArchiveEntry>) -> (r: Result<Vec<u8>, BakError>)
    ensures
        clean_entries(entries_view(entries@)) ==> (r matches Ok(v) && v@ == archive_bytes_of(
            entries_view(entries@),
        )),
        !clean_entries(entries_view(entries@)) ==> r == Err::<Vec<u8>, BakError>(
            BakError::MalformedArtifactName,
        ),
{
    let ghost ev = entries_view(entries@);
    let mut k: usize = 0;
    while k < entries.len()
        invariant
            ev == entries_view(entries@),
            k <= entries@.len(),
            forall|j: int| 0 <= j < k ==> clean_entry_path(#[trigger] ev[j].0),
        decreases entries@.len() - k,
    {
        proof {
            assert(ev[k as int].0 == entries@[k as int].path@);
        }
        if !is_clean_entry_path(&entries[k].path) {
            proof {
                assert(!clean_entries(ev));
            }
            return Err(BakError::MalformedArtifactName);
        }
        k += 1;
    }
    proof {
        assert(clean_entries(ev));
    }
    let mut b = tar_builder_new();
    let mut i: usize = 0;
    proof {
        assert(tar_members(b) =~= ev.take(0int));
    }
    while i < entries.len()
        invariant
            ev == entries_view(entries@),
            clean_entries(ev),
            i <= entries@.len(),
            tar_members(b) == ev.take(i as int),
        decreases entries@.len() - i,
    {
        proof {
            assert(ev[i as int] == entries@[i as int]@);
            assert(clean_entry_path(ev[i as int].0));
        }
        let e = &entries[i];
        match &e.content {
            Option::Some(c) => tar_append_file(&mut b, &e.path, c),
            Option::None => tar_append_dir(&mut b, &e.path),
        }
        proof {
            assert(tar_members(b) =~= ev.take(i as int + 1));
        }
        i += 1;
    }
    proof {
        assert(ev.take(ev.len() as int) =~= ev);
    }
    let t = tar_into_bytes(b);
    Ok(zstd_encode(&t))
}

/// Unpack a compressed archive back into its member list. Whatever member
/// list with clean paths the bytes were packed from comes back exactly;
/// bytes that decode as no archive are reported corrupt.
pub fn read_archive(data: &Vec<u8>) -> (r: Result<Vec<ArchiveEntry>, BakError>)
    ensures
        forall|es: Seq<(Seq<u8>, Option<Seq<u8>>)>|
            clean_entries(es) && data@ == #[trigger] archive_bytes_of(es) ==> (r matches Ok(v)
                && entries_view(v@) == es),
        r matches Err(e) ==> e == BakError::ArchiveCorrupt,
{
    let t = match zstd_decode(data) {
        Ok(t) => t,
        Err(e) => {
            return Err(e);
        },
    };
    tar_read_entries(&t)
}

} // verus!
