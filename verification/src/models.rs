//! The records of the index. Timestamps are Unix milliseconds.
use crate::text::{all_ascii, ascii_lower, chars_eq, str_chars, to_lowercase, unicode_lowercase};
use vstd::prelude::*;

verus! {

/// An indexed file.
#[derive(Debug, Clone)]
pub struct FileEntry {
    pub id: i64,
    pub path: String,
    pub name: String,
    pub extension: Option<String>,
    pub size_bytes: i64,
    pub modified_at: i64,
    pub scanned_at: i64,
    pub file_type: String,
    pub duration_seconds: Option<i64>,
    pub width: Option<i64>,
    pub height: Option<i64>,
    pub video_codec: Option<String>,
    pub audio_codec: Option<String>,
    pub has_subtitles: bool,
    pub audio_tracks: Option<String>,
    pub subtitle_tracks: Option<String>,
    pub extra_json: Option<String>,
    pub notes: Option<String>,
    pub group_id: Option<i64>,
}

/// Metadata extracted from a file.
#[derive(Debug, Clone)]
pub struct FileMetadata {
    pub file_type: String,
    pub duration_seconds: Option<i64>,
    pub width: Option<i64>,
    pub height: Option<i64>,
    pub video_codec: Option<String>,
    pub audio_codec: Option<String>,
    pub has_subtitles: bool,
    pub audio_tracks: Option<String>,
    pub subtitle_tracks: Option<String>,
    pub extra_json: Option<String>,
}

impl FileMetadata {
    /// Metadata that only records the file type.
    pub open spec fn only_type(self, file_type: Seq<char>) -> bool {
        &&& self.file_type@ == file_type
        &&& self.duration_seconds is None
        &&& self.width is None
        &&& self.height is None
        &&& self.video_codec is None
        &&& self.audio_codec is None
        &&& !self.has_subtitles
        &&& self.audio_tracks is None
        &&& self.subtitle_tracks is None
        &&& self.extra_json is None
    }

    /// Metadata that only records the given file type.
    pub fn with_type(file_type: String) -> (r: FileMetadata)
        ensures
            r.only_type(file_type@),
    {
        FileMetadata {
            file_type,
            duration_seconds: None,
            width: None,
            height: None,
            video_codec: None,
            audio_codec: None,
            has_subtitles: false,
            audio_tracks: None,
            subtitle_tracks: None,
            extra_json: None,
        }
    }
}

impl Default for FileMetadata {
    fn default() -> (r: FileMetadata)
        ensures
            r.only_type(Seq::empty()),
    {
        FileMetadata::with_type(String::new())
    }
}

/// A detected group of related files.
#[derive(Debug, Clone)]
pub struct Group {
    pub id: i64,
    pub name: String,
    pub kind: String,
    pub canonical_name: String,
    pub created_at: i64,
    pub file_count: Option<i64>,
}

/// A note in the history of a file.
#[derive(Debug, Clone)]
pub struct Note {
    pub id: i64,
    pub file_id: i64,
    pub content: String,
    pub created_at: i64,
    pub updated_at: i64,
}

/// A user tag.
#[derive(Debug, Clone)]
pub struct Tag {
    pub id: i64,
    pub name: String,
    pub created_at: i64,
}

/// A recorded directory scan.
#[derive(Debug, Clone)]
pub struct ScanJob {
    pub id: i64,
    pub started_at: i64,
    pub finished_at: Option<i64>,
    pub root_path: String,
    pub files_found: i64,
    pub files_indexed: i64,
    pub errors: i64,
    pub status: String,
}

/// The outcome of a directory scan.
#[derive(Debug, Clone)]
pub struct ScanResult {
    pub files_found: usize,
    pub files_indexed: usize,
    pub errors: usize,
}

/// Totals over the index.
#[derive(Debug, Clone)]
pub struct Stats {
    pub total_files: i64,
    pub total_size_bytes: i64,
    pub video_files: i64,
    pub audio_files: i64,
    pub pdf_files: i64,
    pub archive_files: i64,
    pub unknown_files: i64,
    pub group_count: i64,
    pub last_scan: Option<i64>,
}

/// Filters, sorting and paging for file listings.
#[derive(Debug, Clone, Default)]
pub struct FileFilter {
    pub name: Option<String>,
    pub extension: Option<String>,
    pub min_size: Option<i64>,
    pub max_size: Option<i64>,
    pub has_subtitles: Option<bool>,
    pub group_id: Option<i64>,
    pub file_type: Option<String>,
    pub tag_id: Option<i64>,
    pub modified_after: Option<i64>,
    pub modified_before: Option<i64>,
    pub sort_by: Option<String>,
    pub sort_order: Option<String>,
    pub limit: Option<i64>,
    pub offset: Option<i64>,
}

/// Body of a request that sets the main note of a file.
#[derive(Debug, Clone)]
pub struct NoteRequest {
    pub content: String,
}

/// Body of a request that assigns a tag to a file.
#[derive(Debug, Clone)]
pub struct TagRequest {
    pub name: String,
}

/// A reorganization job.
#[derive(Debug, Clone)]
pub struct ReorgJob {
    pub id: i64,
    pub strategy: String,
    pub template: Option<String>,
    pub filter_json: Option<String>,
    pub target_root: Option<String>,
    pub status: String,
    pub created_at: i64,
    pub started_at: Option<i64>,
    pub finished_at: Option<i64>,
    pub total_operations: i64,
    pub completed_operations: i64,
    pub failed_operations: i64,
    pub rolled_back_operations: i64,
    pub backup_db_path: Option<String>,
    pub allow_cross_volume: bool,
    pub target_free_bytes: Option<i64>,
    pub target_total_bytes: Option<i64>,
    pub estimated_extra_bytes: i64,
    pub source_volumes_json: Option<String>,
    pub storage_advice: Option<String>,
}

/// A mounted disk or volume.
#[derive(Debug, Clone)]
pub struct DiskInfo {
    pub name: String,
    pub mount_point: String,
    pub total_bytes: u64,
    pub free_bytes: u64,
    pub used_bytes: u64,
}

impl DiskInfo {
    /// A disk record; the used space is the total less the free space, or 0
    /// when the free space exceeds the total.
    pub fn new(name: String, mount_point: String, total_bytes: u64, free_bytes: u64) -> (r:
        DiskInfo)
        ensures
            r.name@ == name@,
            r.mount_point@ == mount_point@,
            r.total_bytes == total_bytes,
            r.free_bytes == free_bytes,
            r.used_bytes == (if total_bytes >= free_bytes {
                total_bytes - free_bytes
            } else {
                0
            }),
    {
        let used_bytes = if total_bytes >= free_bytes {
            total_bytes - free_bytes
        } else {
            0
        };
        DiskInfo { name, mount_point, total_bytes, free_bytes, used_bytes }
    }
}

/// The storage needed by a set of reorganization operations.
#[derive(Debug, Clone)]
pub struct SpaceEstimate {
    pub total_source_bytes: u64,
    pub extra_bytes_required: u64,
    pub target_free_bytes: u64,
    pub target_total_bytes: u64,
    pub advice: String,
    pub warnings: Vec<String>,
    pub source_volumes: Vec<String>,
}

/// One move of a reorganization plan.
#[derive(Debug, Clone)]
pub struct ReorgOperation {
    pub id: i64,
    pub job_id: i64,
    pub file_id: i64,
    pub source_path: String,
    pub dest_path: String,
    pub action: String,
    pub status: String,
    pub checksum_before: Option<String>,
    pub checksum_after: Option<String>,
    pub size_bytes: i64,
    pub error_message: Option<String>,
    pub created_at: i64,
    pub executed_at: Option<i64>,
}

/// A request to plan a reorganization.
#[derive(Debug, Clone)]
pub struct ReorgPlanRequest {
    pub strategy: ReorgStrategy,
    pub template: String,
    pub target_root: String,
    pub filter: Option<FileFilter>,
    pub allow_cross_volume: Option<bool>,
}

/// How files are laid out by a reorganization.
#[derive(Debug, Clone, Copy, PartialEq, Eq, Structural)]
pub enum ReorgStrategy {
    ByType,
    ByGroup,
    ByDate,
    ByTag,
    Custom,
}

/// The identifier of a strategy.
pub open spec fn strategy_name(s: ReorgStrategy) -> Seq<char> {
    match s {
        ReorgStrategy::ByType => "by-type"@,
        ReorgStrategy::ByGroup => "by-group"@,
        ReorgStrategy::ByDate => "by-date"@,
        ReorgStrategy::ByTag => "by-tag"@,
        ReorgStrategy::Custom => "custom"@,
    }
}

/// The template a strategy uses when none is given.
pub open spec fn strategy_template(s: ReorgStrategy) -> Seq<char> {
    match s {
        ReorgStrategy::ByType => "{file_type}/{name}.{ext}"@,
        ReorgStrategy::ByGroup => "{group_kind}/{group_name}/{name}.{ext}"@,
        ReorgStrategy::ByDate => "{year}/{month}/{name}.{ext}"@,
        ReorgStrategy::ByTag => "{tag}/{name}.{ext}"@,
        ReorgStrategy::Custom => "{file_type}/{name}.{ext}"@,
    }
}

/// The strategy named by `s` once lowercased to `l`.
pub open spec fn parse_lowered(l: Seq<char>, s: Seq<char>) -> Result<ReorgStrategy, Seq<char>> {
    if l == "by-type"@ {
        Ok(ReorgStrategy::ByType)
    } else if l == "by-group"@ {
        Ok(ReorgStrategy::ByGroup)
    } else if l == "by-date"@ {
        Ok(ReorgStrategy::ByDate)
    } else if l == "by-tag"@ {
        Ok(ReorgStrategy::ByTag)
    } else if l == "custom"@ {
        Ok(ReorgStrategy::Custom)
    } else {
        Err("Unknown reorganization strategy: "@ + s)
    }
}

/// The strategy named by `s`, compared after Unicode lowercasing.
pub open spec fn spec_parse_strategy(s: Seq<char>) -> Result<ReorgStrategy, Seq<char>> {
    parse_lowered(unicode_lowercase(s), s)
}

/// The strategy named by the ASCII text `s`, compared after ASCII
/// lowercasing (what Unicode lowercasing does on ASCII text).
pub open spec fn parse_ascii(s: Seq<char>) -> Result<ReorgStrategy, Seq<char>> {
    parse_lowered(s.map_values(|c: char| ascii_lower(c)), s)
}

/// Whether a parse result is the given specification result.
pub open spec fn same_parse(r: Result<ReorgStrategy, String>, e: Result<ReorgStrategy, Seq<char>>) -> bool {
    match (r, e) {
        (Ok(a), Ok(b)) => a == b,
        (Err(m), Err(e)) => m@ == e,
        _ => false,
    }
}

/// Whether two strings hold the same characters.
pub fn str_eq(a: &str, b: &str) -> (r: bool)
    ensures
        r == (a@ == b@),
{
    let av = str_chars(a);
    let bv = str_chars(b);
    chars_eq(&av, &bv)
}

impl ReorgStrategy {
    pub fn as_str(&self) -> (r: &'static str)
        ensures
            r@ == strategy_name(*self),
    {
        match self {
            ReorgStrategy::ByType => "by-type",
            ReorgStrategy::ByGroup => "by-group",
            ReorgStrategy::ByDate => "by-date",
            ReorgStrategy::ByTag => "by-tag",
            ReorgStrategy::Custom => "custom",
        }
    }

    pub fn default_template(&self) -> (r: &'static str)
        ensures
            r@ == strategy_template(*self),
    {
        match self {
            ReorgStrategy::ByType => "{file_type}/{name}.{ext}",
            ReorgStrategy::ByGroup => "{group_kind}/{group_name}/{name}.{ext}",
            ReorgStrategy::ByDate => "{year}/{month}/{name}.{ext}",
            ReorgStrategy::ByTag => "{tag}/{name}.{ext}",
            ReorgStrategy::Custom => "{file_type}/{name}.{ext}",
        }
    }

    /// The strategy named by `s`, whatever its case; an error message names
    /// the unknown strategy.
    pub fn parse(s: &str) -> (r: Result<ReorgStrategy, String>)
        ensures
            same_parse(r, spec_parse_strategy(s@)),
            all_ascii(s@) ==> same_parse(r, parse_ascii(s@)),
    {
        let lower = to_lowercase(s);
        let l = lower.as_str();
        if str_eq(l, "by-type") {
            Ok(ReorgStrategy::ByType)
        } else if str_eq(l, "by-group") {
            Ok(ReorgStrategy::ByGroup)
        } else if str_eq(l, "by-date") {
            Ok(ReorgStrategy::ByDate)
        } else if str_eq(l, "by-tag") {
            Ok(ReorgStrategy::ByTag)
        } else if str_eq(l, "custom") {
            Ok(ReorgStrategy::Custom)
        } else {
            let mut m = String::from_str("Unknown reorganization strategy: ");
            m.append(s);
            Err(m)
        }
    }
}

impl std::str::FromStr for ReorgStrategy {
    type Err = String;

    fn from_str(s: &str) -> (r: Result<ReorgStrategy, String>)
        ensures
            same_parse(r, spec_parse_strategy(s@)),
            all_ascii(s@) ==> same_parse(r, parse_ascii(s@)),
    {
        ReorgStrategy::parse(s)
    }
}

/// Parsing the identifier of a strategy gives back that strategy: the
/// identifiers are ASCII, and parsing ASCII text lowercases it as ASCII.
pub proof fn lemma_strategy_name_round_trip(s: ReorgStrategy)
    ensures
        all_ascii(strategy_name(s)),
        parse_ascii(strategy_name(s)) == Ok::<ReorgStrategy, Seq<char>>(s),
{
    reveal_strlit("by-type");
    reveal_strlit("by-group");
    reveal_strlit("by-date");
    reveal_strlit("by-tag");
    reveal_strlit("custom");
    let n = strategy_name(s);
    assert(n.map_values(|c: char| ascii_lower(c)) =~= n);
    assert("by-type"@.len() != "by-group"@.len());
    assert("by-type"@[3] != "by-date"@[3]);
    assert("by-type"@ != "by-tag"@);
    assert("by-type"@ != "custom"@);
    assert("by-group"@ != "by-date"@);
    assert("by-group"@.len() != "by-tag"@.len());
    assert("by-group"@.len() != "custom"@.len());
    assert("by-date"@ != "by-tag"@);
    assert("by-date"@ != "custom"@);
    assert("by-tag"@[0] != "custom"@[0]);
}

} // verus!
