//! Estimation of the storage a reorganization needs on its target volume.
use crate::error::AlexandriaError;
use crate::models::{DiskInfo, ReorgOperation, SpaceEstimate};
use crate::system::storage::{disk_for_path, free_space_for_path, spec_disk_for_path};
use crate::text::{
    chars_eq, chars_to_string, decimal, digit_char, eq_ignore_ascii_case, str_chars,
    str_eq_ignore_ascii_case, u128_to_decimal,
};
use vstd::prelude::*;

verus! {

pub const ONE_MB: u64 = 1048576;

pub const ONE_GB: u64 = 1073741824;

/// Files above this size are reported as large.
pub const LARGE_FILE_THRESHOLD: u64 = 1073741824;

/// The size of an operation's file, negative sizes counting as 0.
pub open spec fn op_size(op: ReorgOperation) -> nat {
    if op.size_bytes < 0 {
        0
    } else {
        op.size_bytes as nat
    }
}

/// Whether an operation moves a file within one volume: both paths lie on
/// known disks whose mount points are equal up to ASCII case.
pub open spec fn same_volume(op: ReorgOperation, disks: Seq<DiskInfo>) -> bool {
    match (spec_disk_for_path(op.source_path@, disks), spec_disk_for_path(op.dest_path@, disks)) {
        (Some(s), Some(d)) => eq_ignore_ascii_case(disks[s].mount_point@, disks[d].mount_point@),
        _ => false,
    }
}

/// Total size of the operations' files.
pub open spec fn total_size(ops: Seq<ReorgOperation>) -> nat
    decreases ops.len(),
{
    if ops.len() == 0 {
        0
    } else {
        total_size(ops.drop_last()) + op_size(ops.last())
    }
}

/// Total size of the files that leave their volume.
pub open spec fn extra_size(ops: Seq<ReorgOperation>, disks: Seq<DiskInfo>) -> nat
    decreases ops.len(),
{
    if ops.len() == 0 {
        0
    } else {
        extra_size(ops.drop_last(), disks) + if same_volume(ops.last(), disks) {
            0
        } else {
            op_size(ops.last())
        }
    }
}

/// Number of operations within one volume.
pub open spec fn same_volume_count(ops: Seq<ReorgOperation>, disks: Seq<DiskInfo>) -> nat
    decreases ops.len(),
{
    if ops.len() == 0 {
        0
    } else {
        same_volume_count(ops.drop_last(), disks) + if same_volume(ops.last(), disks) {
            1nat
        } else {
            0nat
        }
    }
}

/// Whether an operation's file is large.
pub open spec fn is_large(op: ReorgOperation) -> bool {
    op_size(op) > LARGE_FILE_THRESHOLD
}

/// Number of large files.
pub open spec fn large_count(ops: Seq<ReorgOperation>) -> nat
    decreases ops.len(),
{
    if ops.len() == 0 {
        0
    } else {
        large_count(ops.drop_last()) + if is_large(ops.last()) {
            1nat
        } else {
            0nat
        }
    }
}

/// Total size of the large files.
pub open spec fn large_total(ops: Seq<ReorgOperation>) -> nat
    decreases ops.len(),
{
    if ops.len() == 0 {
        0
    } else {
        large_total(ops.drop_last()) + if is_large(ops.last()) {
            op_size(ops.last())
        } else {
            0
        }
    }
}

/// The volume an operation's file is on, "unknown" when no disk holds it.
pub open spec fn source_volume(op: ReorgOperation, disks: Seq<DiskInfo>) -> Seq<char> {
    match spec_disk_for_path(op.source_path@, disks) {
        Some(i) => disks[i].mount_point@,
        None => "unknown"@,
    }
}

/// The source volumes, each once, in the order in which they first occur.
pub open spec fn distinct_volumes(ops: Seq<ReorgOperation>, disks: Seq<DiskInfo>) -> Seq<
    Seq<char>,
>
    decreases ops.len(),
{
    if ops.len() == 0 {
        Seq::empty()
    } else {
        let prev = distinct_volumes(ops.drop_last(), disks);
        let v = source_volume(ops.last(), disks);
        if prev.contains(v) {
            prev
        } else {
            prev.push(v)
        }
    }
}

/// `1024` to the power `k`.
pub open spec fn pow1024(k: nat) -> nat
    decreases k,
{
    if k == 0 {
        1
    } else {
        1024 * pow1024((k - 1) as nat)
    }
}

/// The binary unit a byte count is written in: the largest power of 1024 not
/// above it, up to petabytes.
pub open spec fn unit_exponent(b: nat) -> nat {
    if b < pow1024(1) {
        0
    } else if b < pow1024(2) {
        1
    } else if b < pow1024(3) {
        2
    } else if b < pow1024(4) {
        3
    } else if b < pow1024(5) {
        4
    } else {
        5
    }
}

/// The name of a binary unit.
pub open spec fn unit_name(k: nat) -> Seq<char> {
    if k == 0 {
        seq!['B']
    } else if k == 1 {
        seq!['K', 'B']
    } else if k == 2 {
        seq!['M', 'B']
    } else if k == 3 {
        seq!['G', 'B']
    } else if k == 4 {
        seq!['T', 'B']
    } else {
        seq!['P', 'B']
    }
}

/// `b` in its unit, in hundredths, rounded to the nearest with ties to even
/// (the rounding of `{:.2}`).
pub open spec fn hundredths(b: nat) -> nat {
    let d = pow1024(unit_exponent(b));
    let q = b * 100 / d;
    let r = b * 100 % d;
    if 2 * r > d || (2 * r == d && q % 2 == 1) {
        q + 1
    } else {
        q
    }
}

/// A byte count as text with two decimals and a binary unit, "0 B" for 0.
pub open spec fn spec_format_bytes(b: nat) -> Seq<char> {
    if b == 0 {
        seq!['0', ' ', 'B']
    } else {
        let h = hundredths(b);
        decimal(h / 100) + seq!['.', digit_char((h % 100) / 10), digit_char(h % 10), ' ']
            + unit_name(unit_exponent(b))
    }
}

/// The advice given for a move of `extra` bytes to a volume with `free`
/// bytes free, `same` of `n` operations staying in their volume.
pub open spec fn spec_advice(extra: nat, free: nat, same: nat, n: nat) -> Seq<char> {
    let first = if extra == 0 {
        "Los archivos se moverán dentro del mismo volumen mediante renombrados atómicos; no se requiere espacio adicional."@
    } else if free >= extra {
        "Se necesitan "@ + spec_format_bytes(extra) + " libres en destino; hay "@
            + spec_format_bytes(free) + " disponibles."@
    } else {
        "⚠️ Espacio insuficiente. Se necesitan "@ + spec_format_bytes(extra) + " pero solo hay "@
            + spec_format_bytes(free)
            + " libres. Libera espacio, elige otro destino o reduce la selección."@
    };
    if same > n / 2 && extra > 0 {
        first + " Recomendación: destino en el mismo volumen; operación rápida y segura."@
    } else {
        first
    }
}

/// The warning on missing space, when the free space falls short.
pub open spec fn shortage_warning(extra: nat, free: nat) -> Seq<char> {
    "Espacio insuficiente en destino: faltan "@ + spec_format_bytes((extra - free) as nat) + "."@
}

/// The warning on large files.
pub open spec fn large_files_warning(count: nat, total: nat) -> Seq<char> {
    decimal(count) + " archivo(s) superan 1 GB ("@ + spec_format_bytes(total)
        + " en total). Las operaciones entre volúmenes serán lentas."@
}

/// The warnings of an estimate: missing space first, then large files.
pub open spec fn spec_warnings(extra: nat, free: nat, lcount: nat, ltotal: nat) -> Seq<
    Seq<char>,
> {
    let w1: Seq<Seq<char>> = if free < extra {
        seq![shortage_warning(extra, free)]
    } else {
        Seq::empty()
    };
    if lcount > 0 {
        w1.push(large_files_warning(lcount, ltotal))
    } else {
        w1
    }
}

/// Whether `e` is the estimate for `ops` moved to `target_root`, the target
/// volume having `free` bytes free and `total` bytes in all.
pub open spec fn is_estimate(
    e: SpaceEstimate,
    ops: Seq<ReorgOperation>,
    disks: Seq<DiskInfo>,
    free: nat,
    total: nat,
) -> bool {
    &&& e.total_source_bytes == total_size(ops)
    &&& e.extra_bytes_required == extra_size(ops, disks)
    &&& e.target_free_bytes == free
    &&& e.target_total_bytes == total
    &&& e.advice@ == spec_advice(
        extra_size(ops, disks),
        free,
        same_volume_count(ops, disks),
        ops.len(),
    )
    &&& e.warnings@.map_values(|w: String| w@) == spec_warnings(
        extra_size(ops, disks),
        free,
        large_count(ops),
        large_total(ops),
    )
    &&& e.source_volumes@.map_values(|v: String| v@) == distinct_volumes(ops, disks)
}

/// The free and total space of the target volume: those of the disk that
/// holds the target root, else `fallback_free` for both.
pub open spec fn target_space(target_root: Seq<char>, disks: Seq<DiskInfo>, fallback_free: nat) -> (
    nat,
    nat,
) {
    match spec_disk_for_path(target_root, disks) {
        Some(i) => (disks[i].free_bytes as nat, disks[i].total_bytes as nat),
        None => (fallback_free, fallback_free),
    }
}

/// The sizes add up below `u64::MAX`.
pub open spec fn sizes_fit(ops: Seq<ReorgOperation>) -> bool {
    total_size(ops) <= u64::MAX
}

/// Sums over a prefix are bounded by the sums over the whole.
pub(crate) proof fn lemma_sums_monotone(ops: Seq<ReorgOperation>, disks: Seq<DiskInfo>, i: int)
    requires
        0 <= i <= ops.len(),
    ensures
        total_size(ops.take(i)) <= total_size(ops),
        extra_size(ops.take(i), disks) <= total_size(ops.take(i)),
        large_total(ops.take(i)) <= total_size(ops.take(i)),
        same_volume_count(ops.take(i), disks) <= i,
        large_count(ops.take(i)) <= i,
    decreases ops.len() - i,
{
    if i < ops.len() {
        lemma_sums_monotone(ops, disks, i + 1);
        assert(ops.take(i + 1).drop_last() =~= ops.take(i));
    } else {
        assert(ops.take(i) =~= ops);
    }
    lemma_sums_bounded(ops.take(i), disks);
}

/// Partial sums are bounded by the total.
proof fn lemma_sums_bounded(ops: Seq<ReorgOperation>, disks: Seq<DiskInfo>)
    ensures
        extra_size(ops, disks) <= total_size(ops),
        large_total(ops) <= total_size(ops),
        same_volume_count(ops, disks) <= ops.len(),
        large_count(ops) <= ops.len(),
    decreases ops.len(),
{
    if ops.len() > 0 {
        lemma_sums_bounded(ops.drop_last(), disks);
    }
}

/// `pow1024(k)` for the units used.
proof fn lemma_pow1024_values()
    ensures
        pow1024(0) == 1,
        pow1024(1) == 1024,
        pow1024(2) == 1048576,
        pow1024(3) == 1073741824,
        pow1024(4) == 1099511627776,
        pow1024(5) == 1125899906842624,
{
    reveal_with_fuel(pow1024, 6);
}

/// Format bytes as a human-readable string using binary units, with two
/// decimals rounded to the nearest (ties to even).
#[verifier::rlimit(40)]
pub fn format_bytes(bytes: u64) -> (r: String)
    ensures
        r@ == spec_format_bytes(bytes as nat),
{
    if bytes == 0 {
        let v: Vec<char> = vec!['0', ' ', 'B'];
        return chars_to_string(&v);
    }
    proof {
        lemma_pow1024_values();
    }
    let b = bytes as u128;
    let (exp, unit): (u128, Vec<char>) = if b < 1024 {
        (0, vec!['B'])
    } else if b < 1048576 {
        (1, vec!['K', 'B'])
    } else if b < 1073741824 {
        (2, vec!['M', 'B'])
    } else if b < 1099511627776 {
        (3, vec!['G', 'B'])
    } else if b < 1125899906842624 {
        (4, vec!['T', 'B'])
    } else {
        (5, vec!['P', 'B'])
    };
    let d: u128 = if exp == 0 {
        1
    } else if exp == 1 {
        1024
    } else if exp == 2 {
        1048576
    } else if exp == 3 {
        1073741824
    } else if exp == 4 {
        1099511627776
    } else {
        1125899906842624
    };
    assert(exp == unit_exponent(bytes as nat));
    assert(d == pow1024(unit_exponent(bytes as nat)));
    assert(unit@ =~= unit_name(unit_exponent(bytes as nat)));
    assert(b * 100 <= u64::MAX * 100) by (nonlinear_arith)
        requires
            b <= u64::MAX,
    ;
    let x = b * 100;
    let q = x / d;
    let rem = x % d;
    let h = if 2 * rem > d || (2 * rem == d && q % 2 == 1) {
        q + 1
    } else {
        q
    };
    assert(h == hundredths(bytes as nat));
    let mut out = u128_to_decimal(h / 100);
    let frac = h % 100;
    let d1 = ((frac / 10) as u8 + 48) as char;
    let d2 = ((frac % 10) as u8 + 48) as char;
    out.push('.');
    out.push(d1);
    out.push(d2);
    out.push(' ');
    let mut i: usize = 0;
    let ghost base = out@;
    while i < unit.len()
        invariant
            i <= unit.len(),
            out@ == base + unit@.take(i as int),
        decreases unit.len() - i,
    {
        out.push(unit[i]);
        i += 1;
        assert(out@ =~= base + unit@.take(i as int));
    }
    assert(unit@.take(unit.len() as int) =~= unit@);
    assert(out@ =~= spec_format_bytes(bytes as nat));
    chars_to_string(&out)
}

/// The text `a` followed by the formatted `x` and the text `b`.
fn around_bytes(out: &mut String, a: &str, x: u64)
    ensures
        final(out)@ == old(out)@ + a@ + spec_format_bytes(x as nat),
{
    out.append(a);
    let f = format_bytes(x);
    out.append(f.as_str());
}

/// The estimate built from the disks, the target volume's free space being
/// `fallback_free` when no known disk holds the target root.
pub fn estimate_space_from(
    operations: &Vec<ReorgOperation>,
    target_root: &str,
    disks: &Vec<DiskInfo>,
    fallback_free: u64,
) -> (r: SpaceEstimate)
    requires
        sizes_fit(operations@),
    ensures
        is_estimate(
            r,
            operations@,
            disks@,
            target_space(target_root@, disks@, fallback_free as nat).0,
            target_space(target_root@, disks@, fallback_free as nat).1,
        ),
{
    let target_disk = disk_for_path(target_root, disks);
    let (target_free_bytes, target_total_bytes) = match target_disk {
        Some(d) => (d.free_bytes, d.total_bytes),
        None => (fallback_free, fallback_free),
    };
    let mut total_source_bytes: u64 = 0;
    let mut extra_bytes_required: u64 = 0;
    let mut same_count: usize = 0;
    let mut large_files_count: usize = 0;
    let mut large_files_total: u64 = 0;
    let mut volumes: Vec<String> = Vec::new();
    let mut i: usize = 0;
    while i < operations.len()
        invariant
            i <= operations.len(),
            sizes_fit(operations@),
            total_source_bytes == total_size(operations@.take(i as int)),
            extra_bytes_required == extra_size(operations@.take(i as int), disks@),
            same_count == same_volume_count(operations@.take(i as int), disks@),
            large_files_count == large_count(operations@.take(i as int)),
            large_files_total == large_total(operations@.take(i as int)),
            volumes@.map_values(|v: String| v@) == distinct_volumes(
                operations@.take(i as int),
                disks@,
            ),
        decreases operations.len() - i,
    {
        let op = &operations[i];
        let ghost pre = operations@.take(i as int);
        proof {
            assert(operations@.take(i + 1).drop_last() =~= pre);
            assert(operations@.take(i + 1).last() == operations@[i as int]);
            lemma_sums_monotone(operations@, disks@, i + 1);
        }
        let size: u64 = if op.size_bytes < 0 {
            0
        } else {
            op.size_bytes as u64
        };
        total_source_bytes = total_source_bytes + size;
        let source_disk = disk_for_path(op.source_path.as_str(), disks);
        let dest_disk = disk_for_path(op.dest_path.as_str(), disks);
        let volume = match source_disk {
            Some(d) => d.mount_point.clone(),
            None => String::from_str("unknown"),
        };
        let mut seen = false;
        let mut k: usize = 0;
        while k < volumes.len()
            invariant
                k <= volumes.len(),
                seen == volumes@.map_values(|v: String| v@).take(k as int).contains(volume@),
            decreases volumes.len() - k,
        {
            let a = str_chars(volumes[k].as_str());
            let b = str_chars(volume.as_str());
            let eq = chars_eq(&a, &b);
            proof {
                let vs = volumes@.map_values(|v: String| v@);
                let t0 = vs.take(k as int);
                let t1 = vs.take(k + 1);
                assert(t1 =~= t0.push(vs[k as int]));
                assert(vs[k as int] == volumes@[k as int]@);
                assert(eq == (vs[k as int] == volume@));
                if eq {
                    assert(t1[k as int] == volume@);
                }
                if t0.contains(volume@) {
                    let w = choose|w: int| 0 <= w < t0.len() && #[trigger] t0[w] == volume@;
                    assert(t1[w] == volume@);
                }
                if t1.contains(volume@) {
                    let w = choose|w: int| 0 <= w < t1.len() && #[trigger] t1[w] == volume@;
                    if w < k {
                        assert(t0[w] == volume@);
                    }
                }
            }
            seen = seen || eq;
            k += 1;
        }
        proof {
            let vs = volumes@.map_values(|v: String| v@);
            assert(vs.take(volumes.len() as int) =~= vs);
        }
        if !seen {
            let ghost before = volumes@.map_values(|v: String| v@);
            volumes.push(volume);
            assert(volumes@.map_values(|v: String| v@) =~= before.push(volume@));
        }
        let same = match (source_disk, dest_disk) {
            (Some(s), Some(d)) => str_eq_ignore_ascii_case(
                s.mount_point.as_str(),
                d.mount_point.as_str(),
            ),
            _ => false,
        };
        if same {
            same_count = same_count + 1;
        } else {
            extra_bytes_required = extra_bytes_required + size;
        }
        if size > LARGE_FILE_THRESHOLD {
            large_files_count = large_files_count + 1;
            large_files_total = large_files_total + size;
        }
        i += 1;
    }
    assert(operations@.take(operations.len() as int) =~= operations@);
    let mut advice = String::new();
    if extra_bytes_required == 0 {
        advice.append(
            "Los archivos se moverán dentro del mismo volumen mediante renombrados atómicos; no se requiere espacio adicional.",
        );
    } else if target_free_bytes >= extra_bytes_required {
        around_bytes(&mut advice, "Se necesitan ", extra_bytes_required);
        around_bytes(&mut advice, " libres en destino; hay ", target_free_bytes);
        advice.append(" disponibles.");
    } else {
        around_bytes(&mut advice, "⚠️ Espacio insuficiente. Se necesitan ", extra_bytes_required);
        around_bytes(&mut advice, " pero solo hay ", target_free_bytes);
        advice.append(" libres. Libera espacio, elige otro destino o reduce la selección.");
    }
    if same_count > operations.len() / 2 && extra_bytes_required > 0 {
        advice.append(" Recomendación: destino en el mismo volumen; operación rápida y segura.");
    }
    let mut warnings: Vec<String> = Vec::new();
    if target_free_bytes < extra_bytes_required {
        let mut w = String::new();
        around_bytes(&mut w, "Espacio insuficiente en destino: faltan ", extra_bytes_required
            - target_free_bytes);
        w.append(".");
        warnings.push(w);
    }
    if large_files_count > 0 {
        let count_text = u128_to_decimal(large_files_count as u128);
        let mut w = chars_to_string(&count_text);
        around_bytes(&mut w, " archivo(s) superan 1 GB (", large_files_total);
        w.append(" en total). Las operaciones entre volúmenes serán lentas.");
        let ghost before = warnings@.map_values(|s: String| s@);
        warnings.push(w);
        assert(warnings@.map_values(|s: String| s@) =~= before.push(w@));
    }
    let r = SpaceEstimate {
        total_source_bytes,
        extra_bytes_required,
        target_free_bytes,
        target_total_bytes,
        advice,
        warnings,
        source_volumes: volumes,
    };
    assert(r.advice@ =~= spec_advice(
        extra_size(operations@, disks@),
        target_free_bytes as nat,
        same_volume_count(operations@, disks@),
        operations@.len(),
    ));
    assert(r.warnings@.map_values(|w: String| w@) =~= spec_warnings(
        extra_size(operations@, disks@),
        target_free_bytes as nat,
        large_count(operations@),
        large_total(operations@),
    ));
    r
}

/// Estimate the storage space required for a set of reorganization
/// operations, given the known disks. When no disk holds the target root,
/// the free space the system reports for it (0 when it reports none) stands
/// for both its free and its total space.
pub fn estimate_space_with_disks(
    operations: &Vec<ReorgOperation>,
    target_root: &str,
    disks: &Vec<DiskInfo>,
) -> (r: Result<SpaceEstimate, AlexandriaError>)
    requires
        sizes_fit(operations@),
    ensures
        match r {
            Ok(e) => match spec_disk_for_path(target_root@, disks@) {
                Some(_) => is_estimate(
                    e,
                    operations@,
                    disks@,
                    target_space(target_root@, disks@, 0).0,
                    target_space(target_root@, disks@, 0).1,
                ),
                None => is_estimate(
                    e,
                    operations@,
                    disks@,
                    e.target_free_bytes as nat,
                    e.target_free_bytes as nat,
                ),
            },
            Err(_) => false,
        },
{
    let fallback = match disk_for_path(target_root, disks) {
        Some(_) => 0,
        None => match free_space_for_path(target_root) {
            Ok(f) => f,
            Err(_) => 0,
        },
    };
    Ok(estimate_space_from(operations, target_root, disks, fallback))
}

/// Moves that all stay within their volume need no extra space, and the
/// extra space never exceeds the total size moved.
pub proof fn lemma_same_volume_needs_no_space(ops: Seq<ReorgOperation>, disks: Seq<DiskInfo>)
    ensures
        (forall|i: int| 0 <= i < ops.len() ==> same_volume(#[trigger] ops[i], disks)) ==> extra_size(
            ops,
            disks,
        ) == 0,
        extra_size(ops, disks) <= total_size(ops),
    decreases ops.len(),
{
    lemma_sums_bounded(ops, disks);
    if ops.len() > 0 {
        lemma_same_volume_needs_no_space(ops.drop_last(), disks);
        if forall|i: int| 0 <= i < ops.len() ==> same_volume(#[trigger] ops[i], disks) {
            assert forall|i: int| 0 <= i < ops.drop_last().len() implies same_volume(
                #[trigger] ops.drop_last()[i],
                disks,
            ) by {
                assert(ops.drop_last()[i] == ops[i]);
            }
            assert(same_volume(ops[ops.len() - 1], disks));
        }
    }
}

} // verus!
