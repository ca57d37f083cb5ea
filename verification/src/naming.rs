//! Path naming: mapping a source path to a backup artifact path and back.
//!
//! Paths are handled as byte strings with `/` as the separator. The final
//! segment of a path (its file name) is the part after the last separator,
//! once trailing separators and trailing `.` segments are dropped, as the
//! platform path rules do; a path with no final segment left, or whose
//! final segment is `..`, has no file name and cannot be given a suffix.

use vstd::prelude::*;

use crate::errors::BakError;
use crate::{DOT, SLASH};

verus! {

/// `.bak`: artifact of a plain file backup.
pub open spec fn bak_suffix() -> Seq<u8> {
    seq![DOT, 98u8, 97u8, 107u8]
}

/// `.bak.d`: artifact of a plain directory backup.
pub open spec fn bak_dir_suffix() -> Seq<u8> {
    seq![DOT, 98u8, 97u8, 107u8, DOT, 100u8]
}

/// `.tar.zstd`: the ending given to compressed archives.
pub open spec fn archive_ending_long() -> Seq<u8> {
    seq![DOT, 116u8, 97u8, 114u8, DOT, 122u8, 115u8, 116u8, 100u8]
}

/// `.tar.zst`: the short archive ending, recognized but never produced.
pub open spec fn archive_ending_short() -> Seq<u8> {
    seq![DOT, 116u8, 97u8, 114u8, DOT, 122u8, 115u8, 116u8]
}

/// A dot followed by the given suffix.
pub open spec fn dotted(suffix: Seq<u8>) -> Seq<u8> {
    seq![DOT] + suffix
}

/// Does `s` end with `suffix`?
pub open spec fn has_suffix(s: Seq<u8>, suffix: Seq<u8>) -> bool {
    suffix.len() <= s.len() && s.subrange(s.len() - suffix.len(), s.len() as int) == suffix
}

/// A trailing byte that the final-segment rule drops: a separator, or a `.`
/// standing as a whole segment at the end (so `foo/.` resolves to `foo`, as
/// the platform path rules do).
pub open spec fn strips_one(s: Seq<u8>) -> bool {
    s.len() > 0 && (s.last() == SLASH || (s.last() == DOT && (s.len() == 1 || s[s.len() - 2]
        == SLASH)))
}

/// Length of `s` once trailing separators and `.` segments are dropped.
pub open spec fn trimmed_len(s: Seq<u8>) -> int
    decreases s.len(),
{
    if strips_one(s) {
        trimmed_len(s.drop_last())
    } else {
        s.len() as int
    }
}

/// `s` without its trailing separators and `.` segments.
pub open spec fn trim_path(s: Seq<u8>) -> Seq<u8> {
    s.take(trimmed_len(s))
}

/// Index right after the last separator of `t`.
pub open spec fn seg_start(t: Seq<u8>) -> int
    decreases t.len(),
{
    if t.len() == 0 {
        0
    } else if t.last() == SLASH {
        t.len() as int
    } else {
        seg_start(t.drop_last())
    }
}

/// The final segment of `s`: what stands after the last separator, once
/// trailing separators and `.` segments are dropped.
pub open spec fn file_name_of(s: Seq<u8>) -> Seq<u8> {
    trim_path(s).skip(seg_start(trim_path(s)))
}

/// Whether `s` has a usable final segment to attach a suffix to.
pub open spec fn has_file_name(s: Seq<u8>) -> bool {
    let f = file_name_of(s);
    f.len() > 0 && f != seq![DOT] && f != seq![DOT, DOT]
}

/// The artifact name for `p`: the trimmed `p`, then `postfix`.
pub open spec fn with_postfix(p: Seq<u8>, postfix: Seq<u8>) -> Seq<u8> {
    trim_path(p) + postfix
}

/// `p` with the first matching archive ending dropped; only one ending is
/// dropped even when two recognized endings are chained, and a name with no
/// recognized ending is left as it is.
pub open spec fn strip_archive_ending(p: Seq<u8>) -> Seq<u8> {
    if has_suffix(p, archive_ending_long()) {
        p.take(p.len() - archive_ending_long().len())
    } else if has_suffix(p, archive_ending_short()) {
        p.take(p.len() - archive_ending_short().len())
    } else {
        p
    }
}

pub proof fn lemma_trimmed_len_bounds(s: Seq<u8>)
    ensures
        0 <= trimmed_len(s) <= s.len(),
    decreases s.len(),
{
    if strips_one(s) {
        lemma_trimmed_len_bounds(s.drop_last());
    }
}

pub proof fn lemma_seg_start_bounds(t: Seq<u8>)
    ensures
        0 <= seg_start(t) <= t.len(),
    decreases t.len(),
{
    if t.len() > 0 && t.last() != SLASH {
        lemma_seg_start_bounds(t.drop_last());
    }
}

/// A trimmed path drops nothing further: it neither ends with a separator
/// nor with a trailing `.` segment, so it trims to itself.
pub proof fn lemma_trim_fixed(s: Seq<u8>)
    ensures
        !strips_one(trim_path(s)),
        trimmed_len(trim_path(s)) == trim_path(s).len(),
    decreases s.len(),
{
    lemma_trimmed_len_bounds(s);
    if strips_one(s) {
        lemma_trim_fixed(s.drop_last());
        lemma_trimmed_len_bounds(s.drop_last());
        assert(trim_path(s.drop_last()) =~= trim_path(s));
    } else {
        assert(trim_path(s) =~= s);
    }
}

/// A trimmed path trims to itself, so its file name is its own.
pub proof fn lemma_trim_idempotent(s: Seq<u8>)
    ensures
        trim_path(trim_path(s)) == trim_path(s),
{
    lemma_trim_fixed(s);
    let t = trim_path(s);
    assert(t.take(t.len() as int) =~= t);
}

/// Compute the trimmed length of `s`.
fn trimmed_len_exec(s: &Vec<u8>) -> (r: usize)
    ensures
        r == trimmed_len(s@),
{
    let mut n: usize = s.len();
    proof {
        assert(s@.take(n as int) =~= s@);
    }
    while n > 0 && (s[n - 1] == SLASH || (s[n - 1] == DOT && (n == 1 || s[n - 2] == SLASH)))
        invariant
            n <= s@.len(),
            trimmed_len(s@) == trimmed_len(s@.take(n as int)),
        decreases n,
    {
        proof {
            assert(strips_one(s@.take(n as int)));
            assert(s@.take(n as int).drop_last() =~= s@.take(n as int - 1));
        }
        n -= 1;
    }
    proof {
        if n == 0 {
            assert(trimmed_len(s@.take(0int)) == 0);
        } else {
            assert(!strips_one(s@.take(n as int)));
        }
    }
    n
}

/// Find the final segment of `path`: `Some((i, n))` bounds the file name as
/// `path[i..n]`, with `n` the trimmed length; `None` when the path has no
/// usable final segment.
pub fn split_file_name(path: &Vec<u8>) -> (r: Option<(usize, usize)>)
    ensures
        r matches Some(b) ==> {
            &&& has_file_name(path@)
            &&& b.1 == trimmed_len(path@)
            &&& b.0 == seg_start(trim_path(path@))
            &&& b.0 <= b.1 <= path@.len()
        },
        r is None ==> !has_file_name(path@),
{
    let n = trimmed_len_exec(path);
    proof {
        lemma_trimmed_len_bounds(path@);
        lemma_seg_start_bounds(trim_path(path@));
    }
    let ghost t = trim_path(path@);
    let mut i: usize = n;
    while i > 0 && path[i - 1] != SLASH
        invariant
            i <= n <= path@.len(),
            n == trimmed_len(path@),
            t == trim_path(path@),
            seg_start(t) == seg_start(path@.take(i as int)),
        decreases i,
    {
        proof {
            assert(path@.take(i as int).last() != SLASH);
            assert(path@.take(i as int).drop_last() =~= path@.take(i as int - 1));
        }
        i -= 1;
    }
    proof {
        if i == 0 {
            assert(seg_start(path@.take(0int)) == 0);
        } else {
            assert(path@.take(i as int).last() == SLASH);
        }
        assert(seg_start(t) == i);
        assert(file_name_of(path@) =~= path@.subrange(i as int, n as int));
    }
    let flen = n - i;
    if flen == 0 {
        proof {
            assert(!has_file_name(path@));
        }
        return None;
    }
    if flen == 1 && path[i] == DOT {
        proof {
            assert(file_name_of(path@) =~= seq![DOT]);
        }
        return None;
    }
    if flen == 2 && path[i] == DOT && path[i + 1] == DOT {
        proof {
            assert(file_name_of(path@) =~= seq![DOT, DOT]);
        }
        return None;
    }
    proof {
        let f = file_name_of(path@);
        assert(f.len() == flen);
        if f == seq![DOT] {
            assert(f[0] == DOT);
        }
        if f == seq![DOT, DOT] {
            assert(f[0] == DOT && f[1] == DOT);
        }
    }
    Some((i, n))
}

/// Copy the bytes of `s` from `i` up to `n`.
pub(crate) fn copy_range(s: &Vec<u8>, i: usize, n: usize) -> (r: Vec<u8>)
    requires
        i <= n <= s@.len(),
    ensures
        r@ == s@.subrange(i as int, n as int),
{
    let mut out: Vec<u8> = Vec::new();
    let mut j: usize = i;
    while j < n
        invariant
            i <= j <= n <= s@.len(),
            out@ =~= s@.subrange(i as int, j as int),
        decreases n - j,
    {
        out.push(s[j]);
        proof {
            assert(out@ =~= s@.subrange(i as int, j as int + 1));
        }
        j += 1;
    }
    proof {
        assert(out@ =~= s@.subrange(i as int, n as int));
    }
    out
}

/// Copy the first `n` bytes of `s`.
fn copy_prefix(s: &Vec<u8>, n: usize) -> (r: Vec<u8>)
    requires
        n <= s@.len(),
    ensures
        r@ == s@.take(n as int),
{
    let out = copy_range(s, 0, n);
    proof {
        assert(s@.subrange(0int, n as int) =~= s@.take(n as int));
    }
    out
}

/// Append all of `more` to `out`.
pub(crate) fn push_all(out: &mut Vec<u8>, more: &Vec<u8>)
    ensures
        final(out)@ == old(out)@ + more@,
{
    let mut j: usize = 0;
    while j < more.len()
        invariant
            j <= more@.len(),
            out@ =~= old(out)@ + more@.take(j as int),
        decreases more@.len() - j,
    {
        out.push(more[j]);
        proof {
            assert(out@ =~= old(out)@ + more@.take(j as int + 1));
        }
        j += 1;
    }
    proof {
        assert(old(out)@ + more@.take(more@.len() as int) =~= old(out)@ + more@);
    }
}

/// Does `s` end with `suffix`?
pub fn ends_with_bytes(s: &Vec<u8>, suffix: &Vec<u8>) -> (r: bool)
    ensures
        r == has_suffix(s@, suffix@),
{
    if suffix.len() > s.len() {
        return false;
    }
    let n = s.len();
    let off = n - suffix.len();
    let mut i: usize = 0;
    while i < suffix.len()
        invariant
            suffix@.len() <= s@.len(),
            n == s@.len(),
            off == s@.len() - suffix@.len(),
            i <= suffix@.len(),
            forall|j: int| 0 <= j < i ==> s@[off + j] == suffix@[j],
        decreases suffix@.len() - i,
    {
        if s[off + i] != suffix[i] {
            proof {
                if has_suffix(s@, suffix@) {
                    assert(s@.subrange(off as int, s@.len() as int)[i as int] == suffix@[i as int]);
                }
            }
            return false;
        }
        i += 1;
    }
    proof {
        assert(s@.subrange(off as int, s@.len() as int) =~= suffix@);
    }
    true
}

/// Append `postfix` to the final path segment of `path`: the artifact name is
/// the path without trailing separators, with `postfix` after it. A path with
/// no usable final segment is rejected.
pub fn add_extension(path: &Vec<u8>, postfix: &Vec<u8>) -> (r: Result<Vec<u8>, BakError>)
    ensures
        r matches Ok(b) ==> has_file_name(path@) && b@ == with_postfix(path@, postfix@),
        r matches Err(e) ==> !has_file_name(path@) && e == BakError::MalformedArtifactName,
{
    match split_file_name(path) {
        None => Err(BakError::MalformedArtifactName),
        Some((_i, n)) => {
            let mut out = copy_prefix(path, n);
            push_all(&mut out, postfix);
            Ok(out)
        },
    }
}

/// Strip one trailing `.` + `suffix` from the whole path string; the suffix
/// being absent is reported as a malformed artifact name.
pub fn remove_extension(path: &Vec<u8>, suffix: &Vec<u8>) -> (r: Result<Vec<u8>, BakError>)
    ensures
        r matches Ok(b) ==> has_suffix(path@, dotted(suffix@)) && b@ == path@.take(
            path@.len() - dotted(suffix@).len(),
        ),
        r matches Err(e) ==> !has_suffix(path@, dotted(suffix@)) && e
            == BakError::MalformedArtifactName,
{
    let mut d: Vec<u8> = Vec::new();
    d.push(DOT);
    push_all(&mut d, suffix);
    proof {
        assert(d@ =~= dotted(suffix@));
    }
    if ends_with_bytes(path, &d) {
        let out = copy_prefix(path, path.len() - d.len());
        Ok(out)
    } else {
        Err(BakError::MalformedArtifactName)
    }
}

/// The `.bak` suffix as bytes.
pub fn bak_suffix_vec() -> (r: Vec<u8>)
    ensures
        r@ == bak_suffix(),
{
    let mut v: Vec<u8> = Vec::new();
    v.push(DOT);
    v.push(98);
    v.push(97);
    v.push(107);
    proof {
        assert(v@ =~= bak_suffix());
    }
    v
}

/// The `.bak.d` suffix as bytes.
pub fn bak_dir_suffix_vec() -> (r: Vec<u8>)
    ensures
        r@ == bak_dir_suffix(),
{
    let mut v = bak_suffix_vec();
    v.push(DOT);
    v.push(100);
    proof {
        assert(v@ =~= bak_dir_suffix());
    }
    v
}

/// The long archive ending `.tar.zstd` as bytes.
pub fn archive_ending_long_vec() -> (r: Vec<u8>)
    ensures
        r@ == archive_ending_long(),
{
    let mut v: Vec<u8> = Vec::new();
    v.push(DOT);
    v.push(116);
    v.push(97);
    v.push(114);
    v.push(DOT);
    v.push(122);
    v.push(115);
    v.push(116);
    v.push(100);
    proof {
        assert(v@ =~= archive_ending_long());
    }
    v
}

/// The short archive ending `.tar.zst` as bytes.
pub fn archive_ending_short_vec() -> (r: Vec<u8>)
    ensures
        r@ == archive_ending_short(),
{
    let mut v: Vec<u8> = Vec::new();
    v.push(DOT);
    v.push(116);
    v.push(97);
    v.push(114);
    v.push(DOT);
    v.push(122);
    v.push(115);
    v.push(116);
    proof {
        assert(v@ =~= archive_ending_short());
    }
    v
}

/// Strip the first matching archive ending from the path, in the order
/// `.tar.zstd`, `.tar.zst`; only that one ending is stripped, and a path
/// with no recognized ending comes back unchanged.
pub fn remove_archive_ending(path: &Vec<u8>) -> (r: Vec<u8>)
    ensures
        r@ == strip_archive_ending(path@),
{
    let long = archive_ending_long_vec();
    if ends_with_bytes(path, &long) {
        return copy_prefix(path, path.len() - long.len());
    }
    let short = archive_ending_short_vec();
    if ends_with_bytes(path, &short) {
        return copy_prefix(path, path.len() - short.len());
    }
    copy_prefix(path, path.len())
}

} // verus!
