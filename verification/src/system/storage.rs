//! Matching paths to the disk that holds them.
use crate::error::AlexandriaError;
use crate::models::DiskInfo;
use crate::text::{
    has_prefix, replace_all, replace_str, str_chars, to_lowercase, unicode_lowercase, utf8_len,
};
use vstd::prelude::*;

verus! {

/// The Windows verbatim prefix `\\?\`.
pub open spec fn verbatim_prefix() -> Seq<char> {
    seq!['\\', '\\', '?', '\\']
}

/// The verbatim UNC prefix `\\?\UNC\`.
pub open spec fn verbatim_unc_prefix() -> Seq<char> {
    seq!['\\', '\\', '?', '\\', 'U', 'N', 'C', '\\']
}

/// A path without its verbatim prefix: `\\?\UNC\server` becomes
/// `\\server` and `\\?\C:\x` becomes `C:\x`.
pub open spec fn spec_normalize_verbatim_prefix(p: Seq<char>) -> Seq<char> {
    if has_prefix(p, verbatim_unc_prefix()) {
        seq!['\\', '\\'] + p.skip(8)
    } else if has_prefix(p, verbatim_prefix()) {
        p.skip(4)
    } else {
        p
    }
}

/// A path in the form in which paths and mount points are compared: '/'
/// becomes '\' and the text is lowercased, as Windows compares paths.
pub open spec fn compare_key(p: Seq<char>) -> Seq<char> {
    unicode_lowercase(replace_all(p, seq!['/'], seq!['\\']))
}

/// The comparison key of a disk's mount point.
pub open spec fn mount_key(d: DiskInfo) -> Seq<char> {
    compare_key(d.mount_point@)
}

/// Among the first `n` disks, the first one whose mount point is a prefix of
/// `key` and is longer, in bytes, than every earlier match.
pub open spec fn best_mount_upto(key: Seq<char>, disks: Seq<DiskInfo>, n: int) -> Option<int>
    decreases n,
{
    if n <= 0 {
        None
    } else {
        let prev = best_mount_upto(key, disks, n - 1);
        let m = mount_key(disks[n - 1]);
        let best_len: nat = match prev {
            None => 0,
            Some(i) => utf8_len(mount_key(disks[i])),
        };
        if has_prefix(key, m) && utf8_len(m) > best_len {
            Some(n - 1)
        } else {
            prev
        }
    }
}

/// The index of the disk holding `path`: the one whose mount point is the
/// longest prefix of the path, the first one among equally long ones.
pub open spec fn spec_disk_for_path(path: Seq<char>, disks: Seq<DiskInfo>) -> Option<int> {
    best_mount_upto(compare_key(spec_normalize_verbatim_prefix(path)), disks, disks.len() as int)
}

/// Strip the Windows verbatim (`\\?\`) prefix so that paths can be compared
/// with regular drive-letter paths.
pub fn normalize_verbatim_prefix(path: &str) -> (r: String)
    ensures
        r@ == spec_normalize_verbatim_prefix(path@),
{
    let v = str_chars(path);
    let unc: Vec<char> = vec!['\\', '\\', '?', '\\', 'U', 'N', 'C', '\\'];
    let verb: Vec<char> = vec!['\\', '\\', '?', '\\'];
    assert(unc@ =~= verbatim_unc_prefix());
    assert(verb@ =~= verbatim_prefix());
    if crate::text::chars_starts_with(&v, &unc) {
        let mut out: Vec<char> = vec!['\\', '\\'];
        let mut i: usize = 8;
        while i < v.len()
            invariant
                8 <= i <= v.len(),
                out@ == seq!['\\', '\\'] + v@.subrange(8, i as int),
            decreases v.len() - i,
        {
            out.push(v[i]);
            i += 1;
            assert(out@ =~= seq!['\\', '\\'] + v@.subrange(8, i as int));
        }
        assert(v@.subrange(8, v.len() as int) =~= v@.skip(8));
        crate::text::chars_to_string(&out)
    } else if crate::text::chars_starts_with(&v, &verb) {
        let mut out: Vec<char> = Vec::new();
        let mut i: usize = 4;
        while i < v.len()
            invariant
                4 <= i <= v.len(),
                out@ == v@.subrange(4, i as int),
            decreases v.len() - i,
        {
            out.push(v[i]);
            i += 1;
            assert(out@ =~= v@.subrange(4, i as int));
        }
        assert(v@.subrange(4, v.len() as int) =~= v@.skip(4));
        crate::text::chars_to_string(&out)
    } else {
        crate::text::chars_to_string(&v)
    }
}

/// '/' replaced by '\', the separator paths are compared with.
pub fn normalize_path_separators(path: &str) -> (r: String)
    ensures
        r@ == replace_all(path@, seq!['/'], seq!['\\']),
{
    proof {
        reveal_strlit("/");
        reveal_strlit("\\");
        assert("/"@ =~= seq!['/']);
        assert("\\"@ =~= seq!['\\']);
    }
    replace_str(path, "/", "\\")
}

/// The comparison key of a path or mount point.
fn compare_key_of(p: &str) -> (r: String)
    ensures
        r@ == compare_key(p@),
{
    let n = normalize_path_separators(p);
    to_lowercase(n.as_str())
}

/// Find the disk whose mount point is the longest prefix of the given path.
/// Paths and mount points are compared with '/' read as '\' and without
/// regard to case, as Windows compares them.
pub fn disk_for_path<'a>(path: &str, disks: &'a Vec<DiskInfo>) -> (r: Option<&'a DiskInfo>)
    ensures
        match (r, spec_disk_for_path(path@, disks@)) {
            (None, None) => true,
            (Some(d), Some(i)) => 0 <= i < disks@.len() && *d == disks@[i],
            _ => false,
        },
{
    let stripped = normalize_verbatim_prefix(path);
    let key = compare_key_of(stripped.as_str());
    let kv = str_chars(key.as_str());
    let mut best: Option<usize> = None;
    let mut best_len: u128 = 0;
    let mut i: usize = 0;
    while i < disks.len()
        invariant
            i <= disks.len(),
            kv@ == compare_key(spec_normalize_verbatim_prefix(path@)),
            match (best, best_mount_upto(kv@, disks@, i as int)) {
                (None, None) => best_len == 0,
                (Some(b), Some(j)) => b == j && b < i && best_len == utf8_len(
                    mount_key(disks@[j]),
                ),
                _ => false,
            },
        decreases disks.len() - i,
    {
        let mount = compare_key_of(disks[i].mount_point.as_str());
        let mv = str_chars(mount.as_str());
        let mlen = crate::text::utf8_byte_len(&mv);
        assert(mv@ == mount_key(disks@[i as int]));
        if crate::text::chars_starts_with(&kv, &mv) && mlen > best_len {
            best = Some(i);
            best_len = mlen;
        }
        i += 1;
    }
    match best {
        None => None,
        Some(b) => Some(&disks[b]),
    }
}

/// Return the free space available on the volume that contains `path`, as
/// `fs2::free_space` reports it, or the I/O error it fails with. What it
/// reports depends on the machine and the moment; only that a failure is an
/// I/O error is stated.
#[verifier::external_body]
pub fn free_space_for_path(path: &str) -> (r: Result<u64, AlexandriaError>)
    ensures
        r matches Err(e) ==> e is Io,
{
    match fs2::free_space(std::path::Path::new(path)) {
        Ok(free) => Ok(free),
        Err(e) => Err(AlexandriaError::Io(e.to_string())),
    }
}

/// The disk chosen for a path is one whose mount point is a non-empty prefix
/// of the path and at least as long as every other such mount point; when
/// no disk is chosen, no mount point is a non-empty prefix of the path.
pub proof fn lemma_disk_for_path_is_longest(key: Seq<char>, disks: Seq<DiskInfo>, n: int)
    requires
        0 <= n <= disks.len(),
    ensures
        match best_mount_upto(key, disks, n) {
            None => forall|j: int|
                0 <= j < n && has_prefix(key, #[trigger] mount_key(disks[j])) ==> utf8_len(
                    mount_key(disks[j]),
                ) == 0,
            Some(i) => {
                &&& 0 <= i < n
                &&& has_prefix(key, mount_key(disks[i]))
                &&& utf8_len(mount_key(disks[i])) > 0
                &&& forall|j: int|
                    0 <= j < n && has_prefix(key, #[trigger] mount_key(disks[j])) ==> utf8_len(
                        mount_key(disks[j]),
                    ) <= utf8_len(mount_key(disks[i]))
            },
        },
    decreases n,
{
    if n > 0 {
        lemma_disk_for_path_is_longest(key, disks, n - 1);
    }
}

} // verus!
