use alexandria::reorganizer::templates::to_os_relative_path;
use alexandria::query::{file_not_found, group_not_found, job_not_found, list_groups_query, note_not_found, tag_not_assigned};
use alexandria::scanner::relocation;
use alexandria::config::database_file;
use alexandria::cli::find_tag;
use alexandria::extractors::archive::{listed_entries, listing_truncated};
use alexandria::models::Tag;
use alexandria::api::{
    build_estimate_from_job, check_api_apply, check_note_content, reorg_strategies,
    tag_name_for_request, template_tokens, type_counts,
};
use alexandria::cli::{
    apply_refusal_message, confirmed, normalize_tag_name, plan_request, rollback_refusal_message,
};
use alexandria::config::{resolve_data_dir, AppConfig};
use alexandria::error::AlexandriaError;
use alexandria::extractors::fs::{base_metadata, is_archive_file, is_audio_file, is_pdf_file};
use alexandria::extractors::probe::{
    audio_tags, merge_probe, video_metadata, wants_probe, ProbeReport, ProbeStream,
};
use alexandria::groups::matcher::{clean_title, detect_collection, normalize_separators};
use alexandria::groups::{match_name, GroupKind};
use alexandria::models::{FileEntry, FileFilter, Group, ReorgJob, ReorgOperation, ReorgPlanRequest, ReorgStrategy};
use alexandria::query::{count_files_query, list_files_query, SqlValue};
use alexandria::reorganizer::checksum::{checksum_of_pieces, ContentHasher};
use alexandria::reorganizer::executor::{
    apply_counters, apply_step, backup_paths, check_apply_allowed, is_cross_device_error,
    pending_operations, revert_needed, verify_copy, MoveFailure, OpAction, OpEvent, OpStage,
};
use alexandria::reorganizer::planner::{
    build_operations, clamp_to_i64, dest_str_to_path, failed_operation_count,
    is_contained_under_any, needs_source_checksum, render_relative_path, same_volume_prefix,
    validate_safe_destination, PlanFile,
};
use alexandria::reorganizer::rollback::{
    check_rollback_allowed, rollback_counters, rollback_order, rollback_step,
};
use alexandria::reorganizer::space::format_bytes;
use alexandria::reorganizer::templates::{build_target_path, is_safe_relative_path, sanitize_path};
use std::collections::HashMap;
use std::io::Write;
use lopdf::{Dictionary, Document, Object};
use alexandria::extractors::archive::zip_listing;
use alexandria::extractors::fs::{extraction_for, Extraction};
use alexandria::extractors::pdf::pdf_metadata;
use alexandria::paths::is_absolute;
use alexandria::reorganizer::templates::{render_template, TemplateContext};
use alexandria::scanner::needs_indexing;
use alexandria::scanner::{indexed_name, scan_concurrency, scan_result, scan_status};

fn make_file(id: i64, path: &str, name: &str, ext: Option<&str>, size: i64) -> FileEntry {
    FileEntry {
        id,
        path: path.into(),
        name: name.into(),
        extension: ext.map(|e| e.to_string()),
        size_bytes: size,
        modified_at: 1706659200000,
        scanned_at: 0,
        file_type: "video".into(),
        duration_seconds: None,
        width: None,
        height: None,
        video_codec: None,
        audio_codec: None,
        has_subtitles: false,
        audio_tracks: None,
        subtitle_tracks: None,
        extra_json: None,
        notes: None,
        group_id: None,
    }
}

fn plan_file(id: i64, path: &str, name: &str, ext: &str) -> PlanFile {
    PlanFile { file: make_file(id, path, name, Some(ext), 100), group: None, first_tag: None }
}

fn request(root: &str, template: &str, allow: Option<bool>) -> ReorgPlanRequest {
    ReorgPlanRequest {
        strategy: ReorgStrategy::ByType,
        template: template.into(),
        target_root: root.into(),
        filter: None,
        allow_cross_volume: allow,
    }
}

fn make_op(status: &str, action: &str, dest: &str) -> ReorgOperation {
    ReorgOperation {
        id: 1,
        job_id: 1,
        file_id: 10,
        source_path: "/src/a.mp4".into(),
        dest_path: dest.into(),
        action: action.into(),
        status: status.into(),
        checksum_before: None,
        checksum_after: None,
        size_bytes: 100,
        error_message: None,
        created_at: 0,
        executed_at: None,
    }
}

#[test]
fn format_bytes_exact_values() {
    assert_eq!(format_bytes(0), "0 B");
    assert_eq!(format_bytes(1), "1.00 B");
    assert_eq!(format_bytes(1023), "1023.00 B");
    assert_eq!(format_bytes(1024), "1.00 KB");
    assert_eq!(format_bytes(1536), "1.50 KB");
    assert_eq!(format_bytes(1048576), "1.00 MB");
    assert_eq!(format_bytes(5 * 1073741824), "5.00 GB");
}

#[test]
fn format_bytes_agrees_with_floating_point_formula() {
    let units = ["B", "KB", "MB", "GB", "TB", "PB"];
    let samples: [u64; 8] = [7, 999, 123456, 987654321, 3_000_000_000, 1_500_000_000_000, 77_777_777_777_777, 9_000_000_000_000_000];
    for b in samples {
        let exp = ((b as f64).log2() / 1024f64.log2()).min(5.0) as usize;
        let value = b as f64 / 1024f64.powi(exp as i32);
        let expected = format!("{:.2} {}", value, units[exp]);
        assert_eq!(format_bytes(b), expected);
    }
}

#[test]
fn rendered_relative_path_uses_file_context() {
    let mut pf = plan_file(1, "/src/Show.S01E01.MKV", "Show.S01E01.MKV", "MKV");
    pf.group = Some(Group {
        id: 3,
        name: "show".into(),
        kind: "series".into(),
        canonical_name: "series:show".into(),
        created_at: 0,
        file_count: None,
    });
    let r = render_relative_path("{group_kind}/{group_name}/{year}-{month}-{day}/{name}.{ext}/{tag}", &pf).unwrap();
    assert_eq!(r, "series/show/2024-01-31/Show.S01E01.mkv/untagged");
}

#[test]
fn plan_marks_colliding_destinations() {
    let files = vec![
        plan_file(1, "/source/same.mp4", "same.mp4", "mp4"),
        plan_file(2, "/source/same.mkv", "same.mkv", "mkv"),
    ];
    let req = request("/target", "{file_type}/{name}", Some(false));
    let ops = build_operations(&req, &files, &vec![None, None], 0, 5).unwrap();
    assert_eq!(ops.len(), 2);
    for op in &ops {
        assert_eq!(op.status, "failed");
        assert_eq!(op.action, "skip_collision");
        assert_eq!(op.dest_path, "/target/video/same");
        assert_eq!(op.error_message.as_deref(), Some("Destination collision: multiple files resolve to /target/video/same"));
    }
    assert_eq!(failed_operation_count(&ops), 2);
}

#[test]
fn plan_renames_on_the_same_volume() {
    let files = vec![
        plan_file(1, "/source/a.mp4", "a.mp4", "mp4"),
        plan_file(2, "/source/b.mp4", "b.mp4", "mp4"),
    ];
    let req = request("/target", "{file_type}/{name}.{ext}", None);
    let ops = build_operations(&req, &files, &vec![None, None], 7, 5).unwrap();
    assert_eq!(ops[0].dest_path, "/target/video/a.mp4");
    assert_eq!(ops[1].dest_path, "/target/video/b.mp4");
    assert_eq!(ops[0].action, "rename_same_volume");
    assert_eq!(ops[0].status, "pending");
    assert_eq!(ops[0].job_id, 7);
    assert_eq!(ops[0].created_at, 5);
    assert_eq!(failed_operation_count(&ops), 0);
}

#[test]
fn plan_refuses_relative_target_root() {
    let files = vec![plan_file(1, "/source/a.mp4", "a.mp4", "mp4")];
    let req = request("target", "{name}", None);
    match build_operations(&req, &files, &vec![None], 0, 0) {
        Err(AlexandriaError::BadRequest(m)) => assert_eq!(m, "target_root must be an absolute path"),
        _ => panic!("expected a refusal"),
    }
}

#[test]
fn plan_handles_cross_volume_moves() {
    let files = vec![plan_file(1, "src/a.mp4", "a.mp4", "mp4")];
    let no = build_operations(&request("/target", "{name}", None), &files, &vec![Some("abc".into())], 0, 0).unwrap();
    assert_eq!(no[0].action, "failed");
    assert_eq!(no[0].status, "pending");
    assert_eq!(no[0].checksum_before, None);
    assert_eq!(no[0].error_message.as_deref(), Some("Cross-volume move not allowed without --allow-cross-volume"));
    let req = request("/target", "{name}", Some(true));
    assert!(needs_source_checksum(&req, &files[0]));
    let yes = build_operations(&req, &files, &vec![Some("abc".into())], 0, 0).unwrap();
    assert_eq!(yes[0].action, "copy_delete");
    assert_eq!(yes[0].checksum_before.as_deref(), Some("abc"));
}

#[test]
fn plan_refuses_destination_under_a_source() {
    let files = vec![
        plan_file(1, "/target/video", "video", "mp4"),
        plan_file(2, "/data/a.mp4", "a.mp4", "mp4"),
    ];
    let ops = build_operations(&request("/target", "{file_type}/{name}.{ext}", None), &files, &vec![None, None], 0, 0).unwrap();
    assert_eq!(ops[1].dest_path, "/target/video/a.mp4");
    assert_eq!(ops[1].status, "failed");
    assert_eq!(ops[1].error_message.as_deref(), Some("Destination is contained within another source path"));
}

#[test]
fn path_helpers() {
    assert!(same_volume_prefix("/a/b", "/c/d"));
    assert!(!same_volume_prefix("a/b", "c/d"));
    assert!(same_volume_prefix("\\\\?\\C:x/y", "C:x/z"));
    assert_eq!(dest_str_to_path("a/b/c"), "a\\b\\c");
    assert!(is_contained_under_any("/Src/A/b.mp4", &vec!["/src/a/".to_string()]));
    assert!(!is_contained_under_any("/src/a", &vec!["/src/a".to_string()]));
    assert_eq!(build_target_path("/t", "a/../b/./c"), "/t/a/b/c");
    assert!(is_safe_relative_path("a/b"));
    assert!(!is_safe_relative_path("/a"));
    assert!(!is_safe_relative_path("a/../b"));
    assert_eq!(sanitize_path("a//b./../c"), "a/b/c");
}

#[test]
fn destination_validation() {
    match validate_safe_destination("C:\\Windows\\x", "C:\\") {
        Err(AlexandriaError::BadRequest(m)) => assert_eq!(m, "Destination is inside a system directory"),
        _ => panic!("expected a refusal"),
    }
    match validate_safe_destination("D:\\other\\x", "D:/dst") {
        Err(AlexandriaError::BadRequest(m)) => assert_eq!(m, "Destination escapes the target root"),
        _ => panic!("expected a refusal"),
    }
    assert!(validate_safe_destination("d:\\DST\\x", "D:/dst").is_ok());
}

#[test]
fn apply_steps_to_completion() {
    let op = make_op("pending", "rename_same_volume", "/dst/a.mp4");
    let (s, a) = apply_step(&op, false, OpStage::Start, &OpEvent::Started);
    assert_eq!(s, OpStage::SourceSize);
    assert!(matches!(a, OpAction::ReadSourceSize));
    let (s, a) = apply_step(&op, false, s, &OpEvent::SourceSize(Ok(100)));
    assert!(matches!(a, OpAction::CheckDestination));
    let (s, a) = apply_step(&op, false, s, &OpEvent::Exists(false));
    assert!(matches!(a, OpAction::LookupRegistration));
    let (s, a) = apply_step(&op, false, s, &OpEvent::Registered(Some(10)));
    assert!(matches!(a, OpAction::MakeDirectory));
    let (s, a) = apply_step(&op, false, s, &OpEvent::DirectoryMade(Ok(())));
    assert!(matches!(a, OpAction::Rename));
    let (s, a) = apply_step(&op, false, s, &OpEvent::Moved(Ok(())));
    assert!(matches!(a, OpAction::RecordPath));
    let (s, a) = apply_step(&op, false, s, &OpEvent::Recorded(Ok(())));
    assert_eq!(s, OpStage::Done);
    match a {
        OpAction::Complete(st) => assert_eq!(st, "completed"),
        _ => panic!("expected completion"),
    }
}

#[test]
fn apply_step_failures() {
    let op = make_op("pending", "rename_same_volume", "/dst/a.mp4");
    match apply_step(&op, false, OpStage::SourceSize, &OpEvent::SourceSize(Ok(99))).1 {
        OpAction::Fail(m) => assert_eq!(m, "Source size mismatch: expected 100, got 99"),
        _ => panic!(),
    }
    match apply_step(&op, false, OpStage::Registration, &OpEvent::Registered(Some(-4))).1 {
        OpAction::Fail(m) => assert_eq!(m, "Destination is already registered in database for file id -4"),
        _ => panic!(),
    }
    match apply_step(&op, false, OpStage::Destination, &OpEvent::Exists(true)).1 {
        OpAction::Fail(m) => assert_eq!(m, "Destination already exists on disk: /dst/a.mp4"),
        _ => panic!(),
    }
    let cross = MoveFailure { cross_device: true, message: "Invalid cross-device link".into() };
    match apply_step(&op, false, OpStage::Move, &OpEvent::Moved(Err(cross.clone()))).1 {
        OpAction::Fail(m) => assert_eq!(m, "Move failed: Invalid cross-device link"),
        _ => panic!(),
    }
    assert!(matches!(apply_step(&op, true, OpStage::Move, &OpEvent::Moved(Err(cross))).1, OpAction::HashFile));
    match apply_step(&op, true, OpStage::Record, &OpEvent::Recorded(Err("Database error: x".into()))).1 {
        OpAction::RevertAndFail(m) => assert_eq!(m, "DB update failed: Database error: x"),
        _ => panic!(),
    }
    assert!(matches!(apply_step(&op, true, OpStage::Move, &OpEvent::Started).1, OpAction::Abort));
    let copy = ReorgOperation { checksum_before: Some("h".into()), ..make_op("pending", "copy_delete", "/d") };
    match apply_step(&copy, true, OpStage::Directory, &OpEvent::DirectoryMade(Ok(()))).1 {
        OpAction::CopyVerifyDelete(Some(h)) => assert_eq!(h, "h"),
        _ => panic!(),
    }
}

#[test]
fn rollback_steps() {
    let op = make_op("completed", "rename_same_volume", "/dst/a.mp4");
    match rollback_step(&op, OpStage::Destination, &OpEvent::Exists(false)).1 {
        OpAction::Fail(m) => assert_eq!(m, "File no longer exists at destination: /dst/a.mp4"),
        _ => panic!(),
    }
    match rollback_step(&op, OpStage::Original, &OpEvent::Exists(true)).1 {
        OpAction::Fail(m) => assert_eq!(m, "Original path already exists, cannot rollback: /src/a.mp4"),
        _ => panic!(),
    }
    assert!(matches!(rollback_step(&op, OpStage::Directory, &OpEvent::DirectoryMade(Err("x".into()))).1, OpAction::Abort));
    match rollback_step(&op, OpStage::Record, &OpEvent::Recorded(Ok(()))).1 {
        OpAction::Complete(s) => assert_eq!(s, "rolled_back"),
        _ => panic!(),
    }
}

/// Runs the steps of one operation against an in-memory disk and index,
/// performing each action as a file system would; returns the last action.
fn run_on_disk(
    op: &ReorgOperation,
    forward: bool,
    files: &mut HashMap<String, u64>,
    index: &mut HashMap<i64, String>,
) -> OpAction {
    let (from, to) = if forward {
        (op.source_path.clone(), op.dest_path.clone())
    } else {
        (op.dest_path.clone(), op.source_path.clone())
    };
    let mut stage = OpStage::Start;
    let mut event = OpEvent::Started;
    for _ in 0..12 {
        let (next, action) = if forward {
            apply_step(op, false, stage, &event)
        } else {
            rollback_step(op, stage, &event)
        };
        if next == OpStage::Done {
            return action;
        }
        event = match &action {
            OpAction::ReadSourceSize => match files.get(&op.source_path) {
                Some(n) => OpEvent::SourceSize(Ok(*n)),
                None => OpEvent::SourceSize(Err("missing".into())),
            },
            OpAction::CheckDestination => OpEvent::Exists(files.contains_key(&op.dest_path)),
            OpAction::CheckOriginal => OpEvent::Exists(files.contains_key(&op.source_path)),
            OpAction::LookupRegistration => OpEvent::Registered(
                index.iter().find(|(_, p)| **p == op.dest_path).map(|(id, _)| *id),
            ),
            OpAction::MakeDirectory => OpEvent::DirectoryMade(Ok(())),
            OpAction::Rename | OpAction::CopyVerifyDelete(_) => {
                let n = files.remove(&from).expect("file to move");
                files.insert(to.clone(), n);
                OpEvent::Moved(Ok(()))
            }
            OpAction::RecordPath => {
                index.insert(op.file_id, to.clone());
                OpEvent::Recorded(Ok(()))
            }
            _ => panic!("unexpected action"),
        };
        stage = next;
    }
    panic!("the run did not end")
}

#[test]
fn rollback_restores_what_apply_changed() {
    let op = make_op("pending", "rename_same_volume", "/dst/a.mp4");
    let mut files: HashMap<String, u64> = HashMap::new();
    files.insert("/src/a.mp4".into(), 100);
    files.insert("/src/b.mp4".into(), 7);
    let mut index: HashMap<i64, String> = HashMap::new();
    index.insert(10, "/src/a.mp4".into());
    index.insert(11, "/src/b.mp4".into());
    let (files0, index0) = (files.clone(), index.clone());

    match run_on_disk(&op, true, &mut files, &mut index) {
        OpAction::Complete(s) => assert_eq!(s, "completed"),
        _ => panic!("expected completion"),
    }
    assert!(!files.contains_key("/src/a.mp4"));
    assert_eq!(files.get("/dst/a.mp4"), Some(&100));
    assert_eq!(index.get(&10).map(|s| s.as_str()), Some("/dst/a.mp4"));

    let done = ReorgOperation { status: "completed".into(), ..op };
    match run_on_disk(&done, false, &mut files, &mut index) {
        OpAction::Complete(s) => assert_eq!(s, "rolled_back"),
        _ => panic!("expected the rollback to complete"),
    }
    assert_eq!(files, files0);
    assert_eq!(index, index0);
}

#[test]
fn refused_apply_leaves_disk_alone() {
    let op = make_op("pending", "rename_same_volume", "/dst/a.mp4");
    let mut files: HashMap<String, u64> = HashMap::new();
    files.insert("/src/a.mp4".into(), 100);
    files.insert("/dst/a.mp4".into(), 5);
    let mut index: HashMap<i64, String> = HashMap::new();
    index.insert(10, "/src/a.mp4".into());
    let (files0, index0) = (files.clone(), index.clone());
    match run_on_disk(&op, true, &mut files, &mut index) {
        OpAction::Fail(m) => assert_eq!(m, "Destination already exists on disk: /dst/a.mp4"),
        _ => panic!("expected a failure"),
    }
    assert_eq!(files, files0);
    assert_eq!(index, index0);
}

#[test]
fn job_level_decisions() {
    match check_apply_allowed(7, "running") {
        Err(AlexandriaError::BadRequest(m)) => assert_eq!(m, "Job 7 is not in planned state (current: running)"),
        _ => panic!(),
    }
    assert!(check_apply_allowed(7, "planned").is_ok());
    match check_rollback_allowed(3, "planned") {
        Err(AlexandriaError::BadRequest(m)) => assert_eq!(m, "Job 3 cannot be rolled back from status planned"),
        _ => panic!(),
    }
    assert!(check_rollback_allowed(3, "failed").is_ok());
    let ops = vec![
        make_op("completed", "rename_same_volume", "/d/1"),
        make_op("pending", "rename_same_volume", "/d/2"),
        make_op("completed", "rename_same_volume", "/d/3"),
        make_op("failed", "skip_collision", "/d/4"),
    ];
    let pending = pending_operations(ops.clone());
    assert_eq!(pending.len(), 1);
    assert_eq!(pending[0].dest_path, "/d/2");
    let order = rollback_order(ops.clone());
    assert_eq!(order.len(), 2);
    assert_eq!(order[0].dest_path, "/d/3");
    assert_eq!(order[1].dest_path, "/d/1");
    let c = apply_counters(&vec![true, false], &ops);
    assert_eq!(c.completed, 1);
    assert_eq!(c.failed, 2);
    assert_eq!(c.total, 3);
    assert_eq!(c.status, "failed");
    let c = apply_counters(&vec![true], &vec![]);
    assert_eq!(c.status, "completed");
    let r = rollback_counters(&vec![true, true]);
    assert_eq!(r.status, "rolled_back");
    assert_eq!(r.rolled_back, 2);
    let r = rollback_counters(&vec![true, false]);
    assert_eq!(r.status, "partially_rolled_back");
    assert_eq!(r.failed, 1);
}

#[test]
fn copy_and_error_checks() {
    assert!(verify_copy(&Some("abc".into()), "abc").is_ok());
    assert!(verify_copy(&None, "abc").is_ok());
    assert_eq!(verify_copy(&Some("abc".into()), "abd").unwrap_err(), "Checksum mismatch after copy: expected abc, got abd");
    assert!(is_cross_device_error(false, None, "Invalid CROSS-device link"));
    assert!(is_cross_device_error(false, Some(17), "x"));
    assert!(is_cross_device_error(true, None, "x"));
    assert!(!is_cross_device_error(false, Some(18), "permission denied"));
    assert!(revert_needed(true, false));
    assert!(!revert_needed(true, true));
    let (db, dir, backup) = backup_paths("/data", "20240131-101010");
    assert_eq!(db, "/data/alexandria.db");
    assert_eq!(dir, "/data/backups");
    assert_eq!(backup, "/data/backups/alexandria-20240131-101010.db");
}

#[test]
fn checksum_is_blake3_of_the_content() {
    let pieces = vec![b"hello ".to_vec(), b"world".to_vec()];
    let whole = vec![b"hello world".to_vec()];
    let a = checksum_of_pieces(&pieces);
    assert_eq!(a, checksum_of_pieces(&whole));
    assert_eq!(a, blake3::hash(b"hello world").to_hex().to_string());
    assert_eq!(a.len(), 64);
    let mut h = ContentHasher::new();
    h.update(b"hello world");
    assert_eq!(h.hex(), a);
    assert_ne!(ContentHasher::new().hex(), a);
}

#[test]
fn sql_of_file_listings() {
    let q = list_files_query(&FileFilter::default());
    assert_eq!(q.sql, "SELECT f.id, f.path, f.name, f.extension, f.size_bytes, f.modified_at, f.scanned_at, f.file_type, f.duration_seconds, f.width, f.height, f.video_codec, f.audio_codec, f.has_subtitles, f.audio_tracks, f.subtitle_tracks, f.extra_json, f.notes, f.group_id FROM files f WHERE 1=1 ORDER BY f.name ASC LIMIT ? OFFSET ?");
    assert_eq!(q.params, vec![SqlValue::Int(100), SqlValue::Int(0)]);
    let f = FileFilter {
        name: Some("Foo".into()),
        extension: Some("MP4".into()),
        has_subtitles: Some(true),
        sort_by: Some("size".into()),
        sort_order: Some("desc".into()),
        limit: Some(5),
        ..Default::default()
    };
    let q = list_files_query(&f);
    assert!(q.sql.ends_with(" AND f.name LIKE ? AND f.extension = ? AND f.has_subtitles = ? ORDER BY f.size_bytes DESC LIMIT ? OFFSET ?"));
    assert_eq!(q.params, vec![SqlValue::Text("%Foo%".into()), SqlValue::Text("mp4".into()), SqlValue::Int(1), SqlValue::Int(5), SqlValue::Int(0)]);
    let c = count_files_query(&FileFilter { tag_id: Some(2), ..Default::default() });
    assert_eq!(c.sql, "SELECT COUNT(*) FROM files f WHERE 1=1 AND f.id IN (SELECT file_id FROM file_tags WHERE tag_id = ?)");
    assert_eq!(c.params, vec![SqlValue::Int(2)]);
    assert_eq!(q.sql.matches('?').count(), q.params.len());
}

#[test]
fn configuration() {
    let c = AppConfig::new("/data".into(), None, None);
    assert_eq!(c.database_url, "sqlite:////data/alexandria.db");
    assert_eq!(c.bind_address, "127.0.0.1:3000");
    assert_eq!(c.log_level, "info");
    assert_eq!(c.logs_dir(), "/data/logs");
    let c = AppConfig::new("C:\\x\\".into(), Some("0.0.0.0:80".into()), Some("debug".into()));
    assert_eq!(c.database_url, "sqlite:///C:/x//alexandria.db");
    assert_eq!(c.bind_address, "0.0.0.0:80");
    assert_eq!(resolve_data_dir("/abs", "/cwd"), "/abs");
    assert_eq!(resolve_data_dir("rel", "/cwd"), "/cwd/rel");
}

#[test]
fn command_line_decisions() {
    let r = plan_request("BY-DATE", "{year}".into(), "/t".into(), true, Some("video".into()), None, Some(3)).unwrap();
    assert_eq!(r.strategy, ReorgStrategy::ByDate);
    assert_eq!(r.allow_cross_volume, Some(true));
    assert_eq!(r.filter.as_ref().unwrap().tag_id, Some(3));
    assert_eq!(
        plan_request("bogus", "x".into(), "/t".into(), false, None, None, None).unwrap_err(),
        "Estrategia desconocida: Unknown reorganization strategy: bogus. Usa by-type, by-group, by-date, by-tag o custom"
    );
    assert_eq!(apply_refusal_message(4, "planned"), None);
    assert_eq!(apply_refusal_message(4, "completed").unwrap(), "El job 4 no está en estado planned (estado actual: completed)");
    assert_eq!(rollback_refusal_message(4, "planned").unwrap(), "No se puede hacer rollback del job 4 en estado planned");
    assert_eq!(rollback_refusal_message(4, "completed"), None);
    assert!(confirmed("  yes\n"));
    assert!(!confirmed("YES"));
    assert_eq!(normalize_tag_name("  Sci-Fi \t"), "sci-fi");
}

#[test]
fn api_decisions() {
    assert!(check_note_content(&"a".repeat(10000)).is_ok());
    match check_note_content(&"é".repeat(5001)) {
        Err(AlexandriaError::BadRequest(m)) => assert_eq!(m, "Note content exceeds 10000 characters"),
        _ => panic!(),
    }
    assert_eq!(tag_name_for_request(" Drama ").unwrap(), "drama");
    assert!(tag_name_for_request("   ").is_err());
    match check_api_apply(9, "failed") {
        Err(AlexandriaError::BadRequest(m)) => assert_eq!(m, "Job 9 is not in planned state"),
        _ => panic!(),
    }
    let s = reorg_strategies();
    assert_eq!(s.len(), 5);
    assert_eq!(s[0].id, "by-type");
    assert_eq!(s[1].name, "Por grupo");
    assert_eq!(s[2].template, "{year}/{month}/{name}.{ext}");
    assert_eq!(template_tokens().len(), 10);
    let counts = type_counts(&vec![("video".to_string(), 3), ("pdf".to_string(), 2), ("video".to_string(), 4)]);
    assert_eq!(counts.video, 4);
    assert_eq!(counts.pdf, 2);
    assert_eq!(counts.audio, 0);
}

#[test]
fn estimate_of_a_recorded_job() {
    let job = ReorgJob {
        id: 1,
        strategy: "by-type".into(),
        template: None,
        filter_json: None,
        target_root: None,
        status: "planned".into(),
        created_at: 0,
        started_at: None,
        finished_at: None,
        total_operations: 2,
        completed_operations: 0,
        failed_operations: 0,
        rolled_back_operations: 0,
        backup_db_path: None,
        allow_cross_volume: true,
        target_free_bytes: Some(1024),
        target_total_bytes: None,
        estimated_extra_bytes: 3072,
        source_volumes_json: None,
        storage_advice: Some("ok".into()),
    };
    let mut big = make_op("pending", "copy_delete", "/d/1");
    big.size_bytes = 2 * 1073741824;
    let ops = vec![big, make_op("pending", "copy_delete", "/d/2")];
    let e = build_estimate_from_job(&job, &ops, vec!["C:\\".into()]);
    assert_eq!(e.total_source_bytes, 2 * 1073741824 + 100);
    assert_eq!(e.extra_bytes_required, 3072);
    assert_eq!(e.target_free_bytes, 1024);
    assert_eq!(e.target_total_bytes, 0);
    assert_eq!(e.advice, "ok");
    assert_eq!(e.warnings, vec![
        "Espacio insuficiente en destino: faltan 2.00 KB.".to_string(),
        "1 archivo(s) superan 1 GB (2.00 GB en total).".to_string(),
    ]);
    assert_eq!(e.source_volumes, vec!["C:\\".to_string()]);
}

#[test]
fn name_matching_details() {
    let m = match_name("Show.Name.S01E02.mp4").unwrap();
    assert_eq!(m.canonical_name, "series:show.name");
    let m = match_name("Movie Name (2024) Directors Cut.mkv").unwrap();
    assert_eq!(m.canonical_name, "movie:movie.name");
    assert_eq!(normalize_separators("My_Show-Name.final.mkv"), "my show name final");
    assert_eq!(clean_title("Film.1080p.x264.[Group]"), "film");
    let c = detect_collection("Some Random File Name.txt").unwrap();
    assert_eq!(c.display_name, "some random file");
    assert_eq!(c.canonical_name, "collection:some.random.file");
    assert!(match_name("a.txt").is_none());
    assert_eq!(GroupKind::Movie.as_str(), "movie");
}

#[test]
fn file_classification() {
    assert!(is_audio_file("/m/song.FLAC"));
    assert!(is_pdf_file("doc.PdF"));
    assert!(is_archive_file("x.tar.gz"));
    assert!(!is_archive_file("x.tar.gz.part"));
    assert_eq!(base_metadata("/v/clip.MOV").file_type, "video");
    assert_eq!(base_metadata("/v/clip").file_type, "unknown");
}

#[test]
fn probe_reports() {
    let stream = |t: &str, c: Option<&str>, l: Option<&str>| ProbeStream {
        codec_type: Some(t.into()),
        codec_name: c.map(|x| x.into()),
        width: Some(1920),
        height: Some(1080),
        language: l.map(|x| x.into()),
    };
    let report = ProbeReport {
        duration_seconds: Some(90),
        streams: vec![
            stream("video", Some("h264"), None),
            stream("audio", Some("aac"), Some("spa")),
            stream("audio", Some("aac"), None),
            stream("audio", Some("ac3"), Some("eng")),
            stream("subtitle", None, Some("eng")),
            stream("subtitle", None, None),
        ],
        format_tags: vec![
            ("TITLE".into(), "Song".into()),
            ("encoder".into(), "x".into()),
            ("Artist".into(), "Band".into()),
        ],
    };
    let m = video_metadata(&report);
    assert_eq!(m.file_type, "video");
    assert_eq!(m.duration_seconds, Some(90));
    assert_eq!(m.width, Some(1920));
    assert_eq!(m.video_codec.as_deref(), Some("h264"));
    assert_eq!(m.audio_codec.as_deref(), Some("aac, ac3"));
    assert_eq!(m.audio_tracks.as_deref(), Some("aac (spa); aac (und); ac3 (eng)"));
    assert!(m.has_subtitles);
    assert_eq!(m.subtitle_tracks.as_deref(), Some("eng; und"));
    assert_eq!(audio_tags(&report), vec![("title".to_string(), "Song".to_string()), ("artist".to_string(), "Band".to_string())]);
    assert!(wants_probe("/a/b.mkv", true));
    assert!(!wants_probe("/a/b.mkv", false));
    assert_eq!(merge_probe(base_metadata("/a/b.xyz"), Some(m)).file_type, "video");
}

#[test]
fn scan_decisions() {
    assert_eq!(scan_concurrency(0), 1);
    assert_eq!(scan_concurrency(8), 8);
    assert_eq!(indexed_name("/a/b/c.mp4"), "c.mp4");
    assert_eq!(indexed_name("/"), "");
    assert_eq!(scan_status(0), "completed");
    assert_eq!(scan_status(2), "completed_with_errors");
    let r = scan_result(3, &vec![true, false, true]);
    assert_eq!(r.files_found, 3);
    assert_eq!(r.files_indexed, 2);
    assert_eq!(r.errors, 1);
}

#[test]
fn strategy_names_parse_back() {
    for s in [ReorgStrategy::ByType, ReorgStrategy::ByGroup, ReorgStrategy::ByDate, ReorgStrategy::ByTag, ReorgStrategy::Custom] {
        assert_eq!(ReorgStrategy::parse(s.as_str()), Ok(s));
        assert_eq!(ReorgStrategy::parse(&s.as_str().to_uppercase()), Ok(s));
    }
    assert_eq!(clamp_to_i64(u64::MAX), i64::MAX);
    assert_eq!(clamp_to_i64(5), 5);
}

#[test]
fn records_of_the_index() {
    let r = relocation("/media/Show.Name.S01E03.MKV");
    assert_eq!(r.name, "Show.Name.S01E03.MKV");
    assert_eq!(r.extension.as_deref(), Some("mkv"));
    assert_eq!(r.group.unwrap().canonical_name, "series:show.name");
    let r = relocation("/");
    assert_eq!(r.name, "/");
    assert!(r.extension.is_none());
    match file_not_found(5) {
        AlexandriaError::NotFound(m) => assert_eq!(m, "File with id 5 not found"),
        _ => panic!(),
    }
    match note_not_found(6) {
        AlexandriaError::NotFound(m) => assert_eq!(m, "Note with id 6 not found"),
        _ => panic!(),
    }
    match group_not_found(7) {
        AlexandriaError::NotFound(m) => assert_eq!(m, "Group with id 7 not found"),
        _ => panic!(),
    }
    match job_not_found(8) {
        AlexandriaError::NotFound(m) => assert_eq!(m, "Reorg job with id 8 not found"),
        _ => panic!(),
    }
    match tag_not_assigned(2, 9) {
        AlexandriaError::NotFound(m) => assert_eq!(m, "Tag 2 is not assigned to file 9"),
        _ => panic!(),
    }
    let q = list_groups_query(Some("series"));
    assert!(q.sql.contains("WHERE g.kind = ?"));
    assert_eq!(q.params, vec![SqlValue::Text("series".into())]);
    assert!(list_groups_query(None).params.is_empty());
}

#[test]
fn database_file_of_a_url() {
    assert_eq!(database_file("sqlite::memory:"), None);
    assert_eq!(database_file("sqlite:///C:/x/alexandria.db").as_deref(), Some("C:/x/alexandria.db"));
    assert_eq!(database_file("sqlite:////data/alexandria.db").as_deref(), Some("/data/alexandria.db"));
    assert_eq!(database_file("not a url"), None);
}

#[test]
fn tags_and_archives() {
    let tags = vec![
        Tag { id: 1, name: "a".into(), created_at: 0 },
        Tag { id: 2, name: "b".into(), created_at: 0 },
    ];
    assert_eq!(find_tag(&tags, "b"), Some(1));
    assert_eq!(find_tag(&tags, "c"), None);
    assert_eq!(listed_entries(3), 3);
    assert_eq!(listed_entries(80), 50);
    assert!(listing_truncated(51));
    assert!(!listing_truncated(50));
}

#[test]
fn error_responses() {
    let e = AlexandriaError::NotFound("x".into());
    assert_eq!(e.status_code(), 404);
    assert_eq!(e.response_message(), "x");
    let e = AlexandriaError::Config("bad".into());
    assert_eq!(e.status_code(), 500);
    assert_eq!(e.message(), "Configuration error: bad");
    assert_eq!(e.response_message(), "Internal error: Configuration error: bad");
}

#[test]
fn host_relative_paths() {
    assert_eq!(to_os_relative_path("video/a.mp4"), "video/a.mp4");
    assert_eq!(to_os_relative_path("a//b"), "a/b");
}

#[test]
fn template_values_are_sanitized_before_substitution() {
    let ctx = TemplateContext { group_name: "AC/DC".into(), name: "song".into(), ..Default::default() };
    assert_eq!(render_template("{group_name}/{name}", &ctx), "AC_DC/song");
    let dots = TemplateContext { name: "..".into(), ext: "mp4".into(), ..Default::default() };
    assert_eq!(render_template("a/{name}/b.{ext}", &dots), "a/b.mp4");
}

fn test_pdf_bytes() -> Vec<u8> {
    let mut doc = Document::with_version("1.4");
    let pages_id = doc.new_object_id();
    let page_id = doc.add_object({
        let mut d = Dictionary::new();
        d.set("Type", "Page");
        d.set("Parent", pages_id);
        Object::Dictionary(d)
    });
    doc.objects.insert(
        pages_id,
        Object::Dictionary({
            let mut d = Dictionary::new();
            d.set("Type", "Pages");
            d.set("Kids", vec![Object::Reference(page_id)]);
            d.set("Count", 1i64);
            d
        }),
    );
    let catalog_id = doc.add_object({
        let mut d = Dictionary::new();
        d.set("Type", "Catalog");
        d.set("Pages", pages_id);
        Object::Dictionary(d)
    });
    doc.trailer.set("Root", catalog_id);
    let info_id = doc.add_object({
        let mut d = Dictionary::new();
        d.set("Title", Object::string_literal("Test PDF"));
        d.set("Author", Object::string_literal("Alexandria"));
        Object::Dictionary(d)
    });
    doc.trailer.set("Info", info_id);
    let mut bytes = Vec::new();
    doc.save_to(&mut bytes).unwrap();
    bytes
}

#[test]
fn test_extract_pdf_metadata_reads_pages_and_info() {
    let info = pdf_metadata(&test_pdf_bytes()).unwrap();
    assert_eq!(info.pages, 1);
    let entries: HashMap<String, String> = info.entries.into_iter().collect();
    assert_eq!(entries.get("Title").map(|s| s.as_str()), Some("Test PDF"));
    assert_eq!(entries.get("Author").map(|s| s.as_str()), Some("Alexandria"));
}

#[test]
fn pdf_metadata_refuses_other_bytes() {
    assert!(matches!(pdf_metadata(b"not a pdf"), Err(AlexandriaError::Other(_))));
}

fn test_zip_bytes(names: &[String]) -> Vec<u8> {
    let mut zip = zip::ZipWriter::new(std::io::Cursor::new(Vec::new()));
    let options: zip::write::FileOptions<()> =
        zip::write::FileOptions::default().compression_method(zip::CompressionMethod::Stored);
    for name in names {
        zip.start_file(name.as_str(), options).unwrap();
        zip.write_all(b"content").unwrap();
    }
    zip.finish().unwrap().into_inner()
}

#[test]
fn test_extract_zip_metadata_counts_entries() {
    let bytes = test_zip_bytes(&["hello.txt".to_string(), "nested/world.txt".to_string()]);
    let listing = zip_listing(&bytes).unwrap();
    assert_eq!(listing.file_count, 2);
    assert_eq!(listing.entries, vec!["hello.txt".to_string(), "nested/world.txt".to_string()]);
    assert!(!listing.truncated);
}

#[test]
fn zip_listing_keeps_the_first_fifty() {
    let names: Vec<String> = (0..60).map(|i| format!("f{}.txt", i)).collect();
    let listing = zip_listing(&test_zip_bytes(&names)).unwrap();
    assert_eq!(listing.file_count, 60);
    assert_eq!(listing.entries, names[..50].to_vec());
    assert!(listing.truncated);
    assert!(matches!(zip_listing(b"not a zip"), Err(AlexandriaError::Other(_))));
}

#[test]
fn extraction_follows_type_and_ffprobe() {
    assert_eq!(extraction_for("/a/movie.MKV", true), Extraction::Video);
    assert_eq!(extraction_for("/a/movie.mkv", false), Extraction::PathOnly);
    assert_eq!(extraction_for("/a/song.flac", true), Extraction::Audio);
    assert_eq!(extraction_for("/a/song.flac", false), Extraction::PathOnly);
    assert_eq!(extraction_for("/a/doc.PDF", false), Extraction::Pdf);
    assert_eq!(extraction_for("/a/pack.zip", false), Extraction::Zip);
    assert_eq!(extraction_for("/a/pack.rar", true), Extraction::PathOnly);
    assert_eq!(extraction_for("/a/noext", true), Extraction::PathOnly);
}

#[test]
fn forced_scans_reindex() {
    assert!(needs_indexing(true, true));
    assert!(needs_indexing(false, false));
    assert!(!needs_indexing(false, true));
}

#[test]
fn absolute_paths_as_on_unix() {
    assert!(is_absolute("/home/x"));
    assert!(!is_absolute("D:/x"));
    assert!(!is_absolute("relative/path"));
    assert!(!is_absolute(""));
}

#[test]
fn drive_root_is_refused_as_not_absolute() {
    let files = vec![plan_file(1, "/source/a.mp4", "a.mp4", "mp4")];
    match build_operations(&request("D:/x", "{name}", None), &files, &vec![None], 1, 0) {
        Err(AlexandriaError::BadRequest(m)) => assert_eq!(m, "target_root must be an absolute path"),
        _ => panic!("expected a refusal"),
    }
    assert_eq!(resolve_data_dir("D:/x", "/cwd"), "/cwd/D:/x");
}

#[test]
fn checksums_are_lowercase_hex() {
    let h = checksum_of_pieces(&vec![b"hello ".to_vec(), b"world".to_vec()]);
    assert_eq!(h.len(), 64);
    assert!(h.chars().all(|c| c.is_ascii_digit() || ('a'..='f').contains(&c)));
    assert_eq!(h, blake3::hash(b"hello world").to_hex().to_string());
}

#[test]
fn display_names_are_plain() {
    for name in [
        "The.Office.S01E02.720p.mkv",
        "Blade_Runner-1982.Directors.Cut.mkv",
        "holiday_trip_beach_day.jpg",
        "my-summer-vacation.mp4",
    ] {
        if let Some(m) = match_name(name) {
            let d = &m.display_name;
            assert!(!d.is_empty(), "{}", name);
            assert!(!d.contains(['.', '_', '-']), "{}", name);
            if m.kind == GroupKind::Collection {
                let n = d.split(' ').count();
                assert!(n == 2 || n == 3, "{}", name);
            }
        }
    }
}

#[test]
fn rollback_restores_a_whole_job() {
    let a = make_op("pending", "rename_same_volume", "/dst/a.mp4");
    let b = ReorgOperation {
        id: 2,
        file_id: 11,
        source_path: "/src/b.mp4".into(),
        dest_path: "/dst/b.mp4".into(),
        size_bytes: 7,
        ..make_op("pending", "rename_same_volume", "/dst/b.mp4")
    };
    let mut files: HashMap<String, u64> = HashMap::new();
    files.insert("/src/a.mp4".into(), 100);
    files.insert("/src/b.mp4".into(), 7);
    let mut index: HashMap<i64, String> = HashMap::new();
    index.insert(10, "/src/a.mp4".into());
    index.insert(11, "/src/b.mp4".into());
    let (files0, index0) = (files.clone(), index.clone());
    let mut done = Vec::new();
    for op in [a, b] {
        match run_on_disk(&op, true, &mut files, &mut index) {
            OpAction::Complete(s) => assert_eq!(s, "completed"),
            _ => panic!("expected completion"),
        }
        done.push(ReorgOperation { status: "completed".into(), ..op });
    }
    assert_eq!(files.get("/dst/b.mp4"), Some(&7));
    let order = rollback_order(done);
    assert_eq!(order.iter().map(|o| o.id).collect::<Vec<_>>(), vec![2, 1]);
    for op in &order {
        match run_on_disk(op, false, &mut files, &mut index) {
            OpAction::Complete(s) => assert_eq!(s, "rolled_back"),
            _ => panic!("expected the rollback to complete"),
        }
    }
    assert_eq!(files, files0);
    assert_eq!(index, index0);
}

#[test]
fn audio_files_are_of_audio_type() {
    for (path, ext) in [("song.FLAC", Some("flac")), ("clip.mp4", Some("mp4")), ("song", None)] {
        let typed_audio = alexandria::extractors::fs::detect_file_type(ext) == "audio";
        assert_eq!(is_audio_file(path), typed_audio, "{}", path);
    }
}
