//! The decisions of a directory scan: how many files are processed at once,
//! the name a file is indexed under, and the result and status of a scan.
use crate::extractors::fs::{lowercase_extension, lowered_extension};
use crate::groups::matcher::{is_match_of, match_name, spec_match_kind, MatchResult};
use crate::models::ScanResult;
use crate::paths::{file_name_of, spec_file_name};
use crate::reorganizer::executor::count_true;
use vstd::prelude::*;

verus! {

/// The number of files processed at once: the requested number, at least 1.
pub fn scan_concurrency(requested: usize) -> (r: usize)
    ensures
        r == (if requested < 1 {
            1
        } else {
            requested
        }),
{
    if requested < 1 {
        1
    } else {
        requested
    }
}

/// The name a file is indexed under: its file name, empty when it has none.
pub fn indexed_name(path: &str) -> (r: String)
    ensures
        r@ == (match spec_file_name(path@) {
            Some(n) => n,
            None => Seq::empty(),
        }),
{
    match file_name_of(path) {
        Some(n) => n,
        None => String::new(),
    }
}

/// The status a scan ends with.
pub open spec fn spec_scan_status(errors: nat) -> Seq<char> {
    if errors > 0 {
        "completed_with_errors"@
    } else {
        "completed"@
    }
}

/// The status a scan ends with: "completed", or "completed_with_errors" when
/// some file could not be indexed.
pub fn scan_status(errors: usize) -> (r: String)
    ensures
        r@ == spec_scan_status(errors as nat),
{
    if errors > 0 {
        String::from_str("completed_with_errors")
    } else {
        String::from_str("completed")
    }
}

/// Whether a file found by a scan is read and recorded again: always when
/// the scan is forced, and otherwise only when the index does not hold it
/// yet, so that files already indexed are skipped.
pub fn needs_indexing(force: bool, already_indexed: bool) -> (r: bool)
    ensures
        r == (force || !already_indexed),
{
    force || !already_indexed
}

/// The result of a scan that found `files_found` files, given for each of
/// them whether it is indexed (a file skipped because the index already
/// holds it is). Every file found is either indexed or counted as an error.
pub fn scan_result(files_found: usize, outcomes: &Vec<bool>) -> (r: ScanResult)
    requires
        outcomes.len() == files_found,
    ensures
        r.files_found == files_found,
        r.files_indexed == count_true(outcomes@),
        r.errors == outcomes.len() - count_true(outcomes@),
        r.files_indexed + r.errors == r.files_found,
{
    let mut indexed: usize = 0;
    let mut i: usize = 0;
    while i < outcomes.len()
        invariant
            i <= outcomes.len(),
            indexed == count_true(outcomes@.take(i as int)),
            indexed <= i,
        decreases outcomes.len() - i,
    {
        assert(outcomes@.take(i + 1).drop_last() =~= outcomes@.take(i as int));
        if outcomes[i] {
            indexed += 1;
        }
        i += 1;
    }
    assert(outcomes@.take(outcomes.len() as int) =~= outcomes@);
    ScanResult { files_found, files_indexed: indexed, errors: outcomes.len() - indexed }
}

/// What the index records of a file moved to a new path.
#[derive(Debug, Clone)]
pub struct Relocation {
    /// The file's name: the last component of the path, or the whole path
    /// when it has none.
    pub name: String,
    /// The extension, lowercased.
    pub extension: Option<String>,
    /// The group the new name belongs to.
    pub group: Option<MatchResult>,
}

/// The name recorded for a file at `path`.
pub open spec fn relocated_name(path: Seq<char>) -> Seq<char> {
    match spec_file_name(path) {
        Some(n) => n,
        None => path,
    }
}

/// What the index records of a file moved to `new_path`: its name, its
/// lowercased extension and the group its name belongs to.
pub fn relocation(new_path: &str) -> (r: Relocation)
    ensures
        r.name@ == relocated_name(new_path@),
        match r.extension {
            Some(e) => lowered_extension(new_path@) == Some(e@),
            None => lowered_extension(new_path@) is None,
        },
        match spec_match_kind(relocated_name(new_path@)) {
            None => r.group is None,
            Some(kd) => r.group matches Some(m) && is_match_of(m, kd.0, kd.1),
        },
{
    let name = match file_name_of(new_path) {
        Some(n) => n,
        None => String::from_str(new_path),
    };
    let extension = lowercase_extension(new_path);
    let group = match_name(name.as_str());
    Relocation { name, extension, group }
}

} // verus!
