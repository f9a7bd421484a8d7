//! The decisions of the web API: what a request is refused for, the values
//! it is answered with, and the space estimate shown for a recorded job.
use crate::error::AlexandriaError;
use crate::models::{
    FileFilter, ReorgJob, ReorgOperation, ReorgStrategy, SpaceEstimate, strategy_name,
    strategy_template,
};
use crate::reorganizer::space::{
    format_bytes, large_count, large_total, shortage_warning,
    spec_format_bytes, total_size, sizes_fit, LARGE_FILE_THRESHOLD,
};
use crate::cli::{normalize_tag_name, spec_tag_name};
use crate::text::{chars_to_string, decimal, int_decimal, str_chars, u128_to_decimal, utf8_byte_len, utf8_len};
use vstd::prelude::*;

verus! {

/// The longest note accepted, in bytes.
pub const MAX_NOTE_BYTES: u128 = 10000;

/// A note longer than 10000 bytes is refused.
pub fn check_note_content(content: &str) -> (r: Result<(), AlexandriaError>)
    ensures
        match r {
            Ok(()) => utf8_len(content@) <= 10000,
            Err(AlexandriaError::BadRequest(m)) => utf8_len(content@) > 10000 && m@
                == "Note content exceeds 10000 characters"@,
            Err(_) => false,
        },
{
    let n = utf8_byte_len(&str_chars(content));
    if n > MAX_NOTE_BYTES {
        Err(AlexandriaError::BadRequest(String::from_str("Note content exceeds 10000 characters")))
    } else {
        Ok(())
    }
}

/// The tag name a request assigns: trimmed and lowercased, refused when
/// nothing is left.
pub fn tag_name_for_request(name: &str) -> (r: Result<String, AlexandriaError>)
    ensures
        match r {
            Ok(t) => t@ == spec_tag_name(name@) && t@.len() > 0,
            Err(AlexandriaError::BadRequest(m)) => spec_tag_name(name@).len() == 0 && m@
                == "Tag name cannot be empty"@,
            Err(_) => false,
        },
{
    let t = normalize_tag_name(name);
    if t.unicode_len() == 0 {
        Err(AlexandriaError::BadRequest(String::from_str("Tag name cannot be empty")))
    } else {
        Ok(t)
    }
}

/// The number of files a scan requested through the API processes at once
/// when the request does not say.
pub fn default_concurrency() -> (r: usize)
    ensures
        r == 4,
{
    4
}

/// The root of a scan requested through the API: the path given, trimmed.
pub fn scan_root(path: &str) -> (r: String)
    ensures
        r@ == crate::text::trim(path@),
{
    chars_to_string(&crate::text::trim_chars(&str_chars(path)))
}

/// The error of a scan whose root is not a directory.
pub fn not_a_directory() -> (r: AlexandriaError)
    ensures
        r matches AlexandriaError::BadRequest(m) && m@ == "La ruta no existe o no es un directorio"@,
{
    AlexandriaError::BadRequest(String::from_str("La ruta no existe o no es un directorio"))
}

/// Only a planned job can be applied through the API.
pub fn check_api_apply(job_id: i64, status: &str) -> (r: Result<(), AlexandriaError>)
    ensures
        match r {
            Ok(()) => status@ == "planned"@,
            Err(AlexandriaError::BadRequest(m)) => status@ != "planned"@ && m@ == "Job "@
                + int_decimal(job_id as int) + " is not in planned state"@,
            Err(_) => false,
        },
{
    if crate::models::str_eq(status, "planned") {
        Ok(())
    } else {
        let mut m = String::from_str("Job ");
        crate::text::append_i64(&mut m, job_id);
        m.append(" is not in planned state");
        Err(AlexandriaError::BadRequest(m))
    }
}

/// The limit and offset a file listing is answered with: those asked for,
/// 100 and 0 by default.
pub fn page_of(filter: &FileFilter) -> (r: (i64, i64))
    ensures
        r.0 == (match filter.limit {
            Some(l) => l,
            None => 100,
        }),
        r.1 == (match filter.offset {
            Some(o) => o,
            None => 0,
        }),
{
    let limit = match filter.limit {
        Some(l) => l,
        None => 100,
    };
    let offset = match filter.offset {
        Some(o) => o,
        None => 0,
    };
    (limit, offset)
}

/// The filter of the files of a group: up to 1000 of them.
pub fn group_files_filter(group_id: i64) -> (r: FileFilter)
    ensures
        r.group_id == Some(group_id),
        r.limit == Some(1000i64),
        r.name is None && r.extension is None && r.min_size is None && r.max_size is None,
        r.has_subtitles is None && r.file_type is None && r.tag_id is None,
        r.modified_after is None && r.modified_before is None,
        r.sort_by is None && r.sort_order is None && r.offset is None,
{
    FileFilter {
        name: None,
        extension: None,
        min_size: None,
        max_size: None,
        has_subtitles: None,
        group_id: Some(group_id),
        file_type: None,
        tag_id: None,
        modified_after: None,
        modified_before: None,
        sort_by: None,
        sort_order: None,
        limit: Some(1000),
        offset: None,
    }
}

/// A reorganization strategy as the API lists it.
#[derive(Debug, Clone)]
pub struct StrategyInfo {
    pub id: String,
    pub name: String,
    pub template: String,
}

/// The strategies, in order.
pub open spec fn listed_strategies() -> Seq<ReorgStrategy> {
    seq![
        ReorgStrategy::ByType,
        ReorgStrategy::ByGroup,
        ReorgStrategy::ByDate,
        ReorgStrategy::ByTag,
        ReorgStrategy::Custom,
    ]
}

/// The display names of the strategies, in the same order.
pub open spec fn strategy_labels() -> Seq<Seq<char>> {
    seq!["Por tipo"@, "Por grupo"@, "Por fecha"@, "Por etiqueta"@, "Personalizada"@]
}

/// The entry of a strategy.
fn strategy_info(s: ReorgStrategy, label: &str) -> (r: StrategyInfo)
    ensures
        r.id@ == strategy_name(s),
        r.name@ == label@,
        r.template@ == strategy_template(s),
{
    StrategyInfo {
        id: String::from_str(s.as_str()),
        name: String::from_str(label),
        template: String::from_str(s.default_template()),
    }
}

/// The reorganization strategies offered, each with its identifier,
/// display name and default template.
pub fn reorg_strategies() -> (r: Vec<StrategyInfo>)
    ensures
        r.len() == 5,
        forall|i: int|
            0 <= i < 5 ==> {
                &&& (#[trigger] r@[i]).id@ == strategy_name(listed_strategies()[i])
                &&& r@[i].name@ == strategy_labels()[i]
                &&& r@[i].template@ == strategy_template(listed_strategies()[i])
            },
{
    let mut v: Vec<StrategyInfo> = Vec::new();
    v.push(strategy_info(ReorgStrategy::ByType, "Por tipo"));
    v.push(strategy_info(ReorgStrategy::ByGroup, "Por grupo"));
    v.push(strategy_info(ReorgStrategy::ByDate, "Por fecha"));
    v.push(strategy_info(ReorgStrategy::ByTag, "Por etiqueta"));
    v.push(strategy_info(ReorgStrategy::Custom, "Personalizada"));
    v
}

/// The tokens a template may use.
pub open spec fn token_names() -> Seq<Seq<char>> {
    seq![
        "{file_type}"@,
        "{extension}"@,
        "{name}"@,
        "{ext}"@,
        "{group_name}"@,
        "{group_kind}"@,
        "{year}"@,
        "{month}"@,
        "{day}"@,
        "{tag}"@,
    ]
}

/// The tokens a template may use, in order.
pub fn template_tokens() -> (r: Vec<String>)
    ensures
        r@.map_values(|t: String| t@) == token_names(),
{
    let mut v: Vec<String> = Vec::new();
    v.push(String::from_str("{file_type}"));
    v.push(String::from_str("{extension}"));
    v.push(String::from_str("{name}"));
    v.push(String::from_str("{ext}"));
    v.push(String::from_str("{group_name}"));
    v.push(String::from_str("{group_kind}"));
    v.push(String::from_str("{year}"));
    v.push(String::from_str("{month}"));
    v.push(String::from_str("{day}"));
    v.push(String::from_str("{tag}"));
    assert(v@.map_values(|t: String| t@) =~= token_names());
    v
}

/// The number of files of each type.
#[derive(Debug, Clone)]
pub struct TypeCounts {
    pub video: i64,
    pub audio: i64,
    pub pdf: i64,
    pub archive: i64,
    pub unknown: i64,
}

/// The count given for a file type by the rows (file type, count): that of
/// the last row of that type, 0 when there is none.
pub open spec fn count_for(rows: Seq<(String, i64)>, file_type: Seq<char>) -> i64
    decreases rows.len(),
{
    if rows.len() == 0 {
        0
    } else if rows.last().0@ == file_type {
        rows.last().1
    } else {
        count_for(rows.drop_last(), file_type)
    }
}

/// The count given for a file type by the rows.
fn count_of(rows: &Vec<(String, i64)>, file_type: &str) -> (r: i64)
    ensures
        r == count_for(rows@, file_type@),
{
    let mut c: i64 = 0;
    let mut i: usize = 0;
    while i < rows.len()
        invariant
            i <= rows.len(),
            c == count_for(rows@.take(i as int), file_type@),
        decreases rows.len() - i,
    {
        assert(rows@.take(i + 1).drop_last() =~= rows@.take(i as int));
        if crate::models::str_eq(rows[i].0.as_str(), file_type) {
            c = rows[i].1;
        }
        i += 1;
    }
    assert(rows@.take(rows.len() as int) =~= rows@);
    c
}

/// The number of files of each type from the rows (file type, count) of the
/// index; a type without a row counts 0.
pub fn type_counts(rows: &Vec<(String, i64)>) -> (r: TypeCounts)
    ensures
        r.video == count_for(rows@, "video"@),
        r.audio == count_for(rows@, "audio"@),
        r.pdf == count_for(rows@, "pdf"@),
        r.archive == count_for(rows@, "archive"@),
        r.unknown == count_for(rows@, "unknown"@),
{
    TypeCounts {
        video: count_of(rows, "video"),
        audio: count_of(rows, "audio"),
        pdf: count_of(rows, "pdf"),
        archive: count_of(rows, "archive"),
        unknown: count_of(rows, "unknown"),
    }
}

/// A signed count clamped at 0.
pub open spec fn non_negative(v: i64) -> nat {
    if v < 0 {
        0
    } else {
        v as nat
    }
}

/// The warning on large files of a recorded job.
pub open spec fn job_large_files_warning(count: nat, total: nat) -> Seq<char> {
    decimal(count) + " archivo(s) superan 1 GB ("@ + spec_format_bytes(total) + " en total)."@
}

/// The estimate shown for a recorded job: the total size of its
/// operations, the extra space and the target's free and total space it was
/// planned with (negative values read as 0), its advice, the source volumes
/// recorded, and warnings when the free space falls short and when there
/// are files over 1 GiB.
pub open spec fn is_job_estimate(
    e: SpaceEstimate,
    job: ReorgJob,
    ops: Seq<ReorgOperation>,
    source_volumes: Seq<String>,
) -> bool {
    let extra = non_negative(job.estimated_extra_bytes);
    let free = non_negative(
        match job.target_free_bytes {
            Some(f) => f,
            None => 0,
        },
    );
    let w1: Seq<Seq<char>> = if free < extra {
        seq![shortage_warning(extra, free)]
    } else {
        Seq::empty()
    };
    &&& e.total_source_bytes == total_size(ops)
    &&& e.extra_bytes_required == extra
    &&& e.target_free_bytes == free
    &&& e.target_total_bytes == non_negative(
        match job.target_total_bytes {
            Some(t) => t,
            None => 0,
        },
    )
    &&& e.advice@ == (match job.storage_advice {
        Some(a) => a@,
        None => Seq::empty(),
    })
    &&& e.warnings@.map_values(|w: String| w@) == (if large_count(ops) > 0 {
        w1.push(job_large_files_warning(large_count(ops), large_total(ops)))
    } else {
        w1
    })
    &&& e.source_volumes@.map_values(|v: String| v@) == source_volumes.map_values(
        |v: String| v@,
    )
}

/// A signed count clamped at 0.
fn clamp_non_negative(v: i64) -> (r: u64)
    ensures
        r == non_negative(v),
{
    if v < 0 {
        0
    } else {
        v as u64
    }
}

/// The estimate shown for a recorded job; `source_volumes` are the volumes
/// recorded with it.
pub fn build_estimate_from_job(
    job: &ReorgJob,
    operations: &Vec<ReorgOperation>,
    source_volumes: Vec<String>,
) -> (r: SpaceEstimate)
    requires
        sizes_fit(operations@),
    ensures
        is_job_estimate(r, *job, operations@, source_volumes@),
{
    let ghost volumes = source_volumes@;
    let mut total: u64 = 0;
    let mut large_n: usize = 0;
    let mut large_sum: u64 = 0;
    let mut i: usize = 0;
    while i < operations.len()
        invariant
            i <= operations.len(),
            sizes_fit(operations@),
            total == total_size(operations@.take(i as int)),
            large_n == large_count(operations@.take(i as int)),
            large_sum == large_total(operations@.take(i as int)),
            large_n <= i,
            large_sum <= total,
        decreases operations.len() - i,
    {
        proof {
            assert(operations@.take(i + 1).drop_last() =~= operations@.take(i as int));
            crate::reorganizer::space::lemma_sums_monotone(operations@, Seq::empty(), i + 1);
        }
        let size = clamp_non_negative(operations[i].size_bytes);
        total = total + size;
        if size > LARGE_FILE_THRESHOLD {
            large_n = large_n + 1;
            large_sum = large_sum + size;
        }
        i += 1;
    }
    assert(operations@.take(operations.len() as int) =~= operations@);
    let extra = clamp_non_negative(job.estimated_extra_bytes);
    let free = clamp_non_negative(
        match job.target_free_bytes {
            Some(f) => f,
            None => 0,
        },
    );
    let target_total = clamp_non_negative(
        match job.target_total_bytes {
            Some(t) => t,
            None => 0,
        },
    );
    let mut warnings: Vec<String> = Vec::new();
    if free < extra {
        let mut w = String::from_str("Espacio insuficiente en destino: faltan ");
        w.append(format_bytes(extra - free).as_str());
        w.append(".");
        warnings.push(w);
        assert(warnings@.map_values(|s: String| s@) =~= seq![shortage_warning(extra as nat, free as nat)]);
    }
    assert(warnings@.map_values(|s: String| s@) =~= (if free < extra {
        seq![shortage_warning(extra as nat, free as nat)]
    } else {
        Seq::<Seq<char>>::empty()
    }));
    if large_n > 0 {
        let mut w = chars_to_string(&u128_to_decimal(large_n as u128));
        w.append(" archivo(s) superan 1 GB (");
        w.append(format_bytes(large_sum).as_str());
        w.append(" en total).");
        let ghost before = warnings@.map_values(|s: String| s@);
        warnings.push(w);
        assert(warnings@.map_values(|s: String| s@) =~= before.push(w@));
    }
    let advice = match &job.storage_advice {
        Some(a) => a.clone(),
        None => String::new(),
    };
    let r = SpaceEstimate {
        total_source_bytes: total,
        extra_bytes_required: extra,
        target_free_bytes: free,
        target_total_bytes: target_total,
        advice,
        warnings,
        source_volumes,
    };
    assert(r.source_volumes@ == volumes);
    r
}

} // verus!
