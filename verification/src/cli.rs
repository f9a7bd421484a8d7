//! The command line: its commands, and the decisions the commands take on
//! their arguments before they touch the index or the disk.
use crate::models::{FileFilter, ReorgPlanRequest, ReorgStrategy, Tag, spec_parse_strategy};
use crate::text::{
    chars_eq, chars_to_string, int_decimal, str_chars, to_lowercase, trim, trim_chars,
    unicode_lowercase,
};
use vstd::prelude::*;

verus! {

/// The arguments of the program.
#[derive(Debug, Clone)]
pub struct Cli {
    /// Directory of the data (database, logs).
    pub data_dir: Option<String>,
    /// Log level (trace, debug, info, warn, error).
    pub log_level: Option<String>,
    pub command: Commands,
}

/// The commands of the program.
#[derive(Debug, Clone)]
pub enum Commands {
    /// Scan a directory and add its files to the index.
    Scan { path: String, concurrency: usize, force: bool },
    /// Start the web server.
    Serve { bind: String },
    /// Show totals of the index.
    Info,
    /// List the detected groups, of one kind or all.
    Groups { kind: Option<String> },
    /// Recompute the groups of every indexed file.
    Regroup,
    /// Set the note of an indexed file.
    Note { path: String, content: String },
    /// Add or remove a tag of an indexed file.
    Tag { path: String, add: Option<String>, remove: Option<String> },
    /// Reorganize files on disk.
    Reorg { command: ReorgCommands },
}

/// The reorganization commands.
#[derive(Debug, Clone)]
pub enum ReorgCommands {
    /// Plan a reorganization, or only show it with `dry_run`.
    Plan {
        strategy: String,
        template: String,
        target_root: String,
        allow_cross_volume: bool,
        file_type: Option<String>,
        extension: Option<String>,
        tag_id: Option<i64>,
        dry_run: bool,
    },
    /// List the reorganization jobs.
    List,
    /// Show a job and its operations.
    Status { job_id: i64 },
    /// Apply a planned job; `yes` skips the confirmation.
    Apply { job_id: i64, yes: bool },
    /// Roll back an applied job; `yes` skips the confirmation.
    Rollback { job_id: i64, yes: bool },
}

/// The message of an unknown strategy.
pub open spec fn unknown_strategy_message(error: Seq<char>) -> Seq<char> {
    "Estrategia desconocida: "@ + error + ". Usa by-type, by-group, by-date, by-tag o custom"@
}

/// The plan request of a `reorg plan` command: the strategy is parsed, the
/// filter holds the file type, extension and tag given, and crossing volumes
/// is allowed as asked.
pub fn plan_request(
    strategy: &str,
    template: String,
    target_root: String,
    allow_cross_volume: bool,
    file_type: Option<String>,
    extension: Option<String>,
    tag_id: Option<i64>,
) -> (r: Result<ReorgPlanRequest, String>)
    ensures
        match spec_parse_strategy(strategy@) {
            Err(e) => r matches Err(m) && m@ == unknown_strategy_message(e),
            Ok(s) => r matches Ok(req) && {
                &&& req.strategy == s
                &&& req.template@ == template@
                &&& req.target_root@ == target_root@
                &&& req.allow_cross_volume == Some(allow_cross_volume)
                &&& req.filter matches Some(f) && {
                    &&& f.file_type == file_type
                    &&& f.extension == extension
                    &&& f.tag_id == tag_id
                    &&& f.name is None && f.min_size is None && f.max_size is None
                    &&& f.has_subtitles is None && f.group_id is None
                    &&& f.modified_after is None && f.modified_before is None
                    &&& f.sort_by is None && f.sort_order is None
                    &&& f.limit is None && f.offset is None
                }
            },
        },
{
    match ReorgStrategy::parse(strategy) {
        Err(e) => {
            let mut m = String::from_str("Estrategia desconocida: ");
            m.append(e.as_str());
            m.append(". Usa by-type, by-group, by-date, by-tag o custom");
            Err(m)
        },
        Ok(s) => {
            let filter = FileFilter {
                name: None,
                extension,
                min_size: None,
                max_size: None,
                has_subtitles: None,
                group_id: None,
                file_type,
                tag_id,
                modified_after: None,
                modified_before: None,
                sort_by: None,
                sort_order: None,
                limit: None,
                offset: None,
            };
            Ok(
                ReorgPlanRequest {
                    strategy: s,
                    template,
                    target_root,
                    filter: Some(filter),
                    allow_cross_volume: Some(allow_cross_volume),
                },
            )
        },
    }
}

/// `s` followed by the decimal text of `n`.
fn with_number(s: &str, n: i64) -> (r: String)
    ensures
        r@ == s@ + int_decimal(n as int),
{
    let mut m = String::from_str(s);
    crate::text::append_i64(&mut m, n);
    m
}

/// The refusal of `reorg apply` for a job that is not planned.
pub open spec fn cli_apply_refusal(job_id: i64, status: Seq<char>) -> Option<Seq<char>> {
    if status == "planned"@ {
        None
    } else {
        Some(
            "El job "@ + int_decimal(job_id as int) + " no está en estado planned (estado actual: "@
                + status + ")"@,
        )
    }
}

/// Why `reorg apply` refuses a job, if it does: the job is not planned.
pub fn apply_refusal_message(job_id: i64, status: &str) -> (r: Option<String>)
    ensures
        match r {
            None => cli_apply_refusal(job_id, status@) is None,
            Some(m) => cli_apply_refusal(job_id, status@) == Some(m@),
        },
{
    if crate::models::str_eq(status, "planned") {
        None
    } else {
        let mut m = with_number("El job ", job_id);
        m.append(" no está en estado planned (estado actual: ");
        m.append(status);
        m.append(")");
        Some(m)
    }
}

/// The refusal of `reorg rollback` for a job that is neither completed nor
/// failed.
pub open spec fn cli_rollback_refusal(job_id: i64, status: Seq<char>) -> Option<Seq<char>> {
    if status == "completed"@ || status == "failed"@ {
        None
    } else {
        Some(
            "No se puede hacer rollback del job "@ + int_decimal(job_id as int) + " en estado "@
                + status,
        )
    }
}

/// Why `reorg rollback` refuses a job, if it does: the job is neither
/// completed nor failed.
pub fn rollback_refusal_message(job_id: i64, status: &str) -> (r: Option<String>)
    ensures
        match r {
            None => cli_rollback_refusal(job_id, status@) is None,
            Some(m) => cli_rollback_refusal(job_id, status@) == Some(m@),
        },
{
    if crate::models::str_eq(status, "completed") || crate::models::str_eq(status, "failed") {
        None
    } else {
        let mut m = with_number("No se puede hacer rollback del job ", job_id);
        m.append(" en estado ");
        m.append(status);
        Some(m)
    }
}

/// Whether the answer to a confirmation is "yes", blanks around it aside.
pub fn confirmed(input: &str) -> (r: bool)
    ensures
        r == (trim(input@) == "yes"@),
{
    let t = trim_chars(&str_chars(input));
    chars_eq(&t, &str_chars("yes"))
}

/// A tag name as it is stored: trimmed and lowercased.
pub open spec fn spec_tag_name(name: Seq<char>) -> Seq<char> {
    unicode_lowercase(trim(name))
}

/// A tag name as it is stored: trimmed and lowercased.
pub fn normalize_tag_name(name: &str) -> (r: String)
    ensures
        r@ == spec_tag_name(name@),
{
    let t = chars_to_string(&trim_chars(&str_chars(name)));
    to_lowercase(t.as_str())
}

/// The position of the first tag with the given name, if any.
pub fn find_tag(tags: &Vec<Tag>, name: &str) -> (r: Option<usize>)
    ensures
        match r {
            Some(i) => i < tags.len() && tags@[i as int].name@ == name@ && forall|j: int|
                0 <= j < i ==> tags@[j].name@ != name@,
            None => forall|j: int| 0 <= j < tags.len() ==> tags@[j].name@ != name@,
        },
{
    let mut i: usize = 0;
    while i < tags.len()
        invariant
            i <= tags.len(),
            forall|j: int| 0 <= j < i ==> tags@[j].name@ != name@,
        decreases tags.len() - i,
    {
        if crate::models::str_eq(tags[i].name.as_str(), name) {
            return Some(i);
        }
        i += 1;
    }
    None
}

} // verus!
