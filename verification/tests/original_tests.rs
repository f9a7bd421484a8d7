use alexandria::extractors::fs::{detect_file_type, is_video_file};
use alexandria::groups::{match_name, GroupKind};
use alexandria::models::{DiskInfo, ReorgOperation};
use alexandria::reorganizer::space::{estimate_space_with_disks, ONE_GB, ONE_MB};
use alexandria::reorganizer::templates::{render_template, sanitize_component, TemplateContext};
use alexandria::system::storage::disk_for_path;

fn make_disk(name: &str, mount: &str, total: u64, free: u64) -> DiskInfo {
    DiskInfo {
        name: name.into(),
        mount_point: mount.into(),
        total_bytes: total,
        free_bytes: free,
        used_bytes: total.saturating_sub(free),
    }
}

fn make_op(source_path: &str, dest_path: &str, size: i64) -> ReorgOperation {
    ReorgOperation {
        id: 0,
        job_id: 1,
        file_id: 1,
        source_path: source_path.into(),
        dest_path: dest_path.into(),
        action: "pending".into(),
        status: "pending".into(),
        checksum_before: None,
        checksum_after: None,
        size_bytes: size,
        error_message: None,
        created_at: 0,
        executed_at: None,
    }
}

#[test]
fn test_detect_file_type() {
    assert_eq!(detect_file_type(Some("mp4")), "video");
    assert_eq!(detect_file_type(Some("MKV")), "unknown");
    assert_eq!(detect_file_type(Some("pdf")), "pdf");
    assert_eq!(detect_file_type(Some("zip")), "archive");
    assert_eq!(detect_file_type(Some("mp3")), "audio");
    assert_eq!(detect_file_type(None), "unknown");
}

#[test]
fn test_is_video_file() {
    assert!(is_video_file("movie.mp4"));
    assert!(is_video_file("movie.MKV"));
    assert!(!is_video_file("doc.pdf"));
    assert!(!is_video_file("noextension"));
}

#[test]
fn test_series_patterns() {
    let cases = [
        ("Show.Name.S01E02.mp4", GroupKind::Series, "show name"),
        ("Show Name - S1E2.mkv", GroupKind::Series, "show name"),
        ("My.Show.1x02.avi", GroupKind::Series, "my show"),
    ];
    for (input, expected_kind, expected_name) in cases {
        let result = match_name(input).expect("should match series");

        assert_eq!(result.kind, expected_kind);
        assert_eq!(result.display_name, expected_name);
        assert!(result.canonical_name.starts_with("series:"));
    }
}

#[test]
fn test_movie_patterns() {
    let cases = [
        ("Movie.Name.2024.1080p.BluRay.mp4", GroupKind::Movie, "movie name"),
        ("Movie Name (2024) Directors Cut.mkv", GroupKind::Movie, "movie name"),
    ];
    for (input, expected_kind, expected_name) in cases {
        let result = match_name(input).expect("should match movie");

        assert_eq!(result.kind, expected_kind);
        assert_eq!(result.display_name, expected_name);
        assert!(result.canonical_name.starts_with("movie:"));
    }
}

#[test]
fn test_collection_fallback() {
    let result = match_name("Some Random File.txt").expect("should match collection");
    assert_eq!(result.kind, GroupKind::Collection);
    assert_eq!(result.display_name, "some random file");
}

#[test]
fn test_same_volume_requires_no_extra_space() {
    let disks = vec![make_disk("C", "C:\\", 500 * ONE_GB, 100 * ONE_GB)];
    let ops = vec![
        make_op("C:\\src\\a.mp4", "C:\\dst\\a.mp4", (100 * ONE_MB) as i64),
        make_op("C:\\src\\b.mp4", "C:\\dst\\b.mp4", (200 * ONE_MB) as i64),
    ];

    let est = estimate_space_with_disks(&ops, "C:\\dst", &disks).unwrap();
    assert_eq!(est.total_source_bytes, 300 * ONE_MB);
    assert_eq!(est.extra_bytes_required, 0);
    assert!(est.advice.contains("renombrados atómicos"));
    assert!(est.warnings.is_empty());
}

#[test]
fn test_cross_volume_requires_extra_space() {
    let disks = vec![
        make_disk("C", "C:\\", 500 * ONE_GB, 100 * ONE_GB),
        make_disk("D", "D:\\", 500 * ONE_GB, 200 * ONE_GB),
    ];
    let ops = vec![
        make_op("C:\\src\\a.mp4", "D:\\dst\\a.mp4", 2 * ONE_GB as i64),
        make_op("C:\\src\\b.mp4", "D:\\dst\\b.mp4", 3 * ONE_GB as i64),
    ];

    let est = estimate_space_with_disks(&ops, "D:\\dst", &disks).unwrap();
    assert_eq!(est.total_source_bytes, 5 * ONE_GB);
    assert_eq!(est.extra_bytes_required, 5 * ONE_GB);
    assert!(est.advice.contains("Se necesitan"));
    assert!(est.advice.contains("disponibles"));
}

#[test]
fn test_insufficient_space_warning() {
    let disks = vec![
        make_disk("C", "C:\\", 500 * ONE_GB, 100 * ONE_GB),
        make_disk("D", "D:\\", 500 * ONE_GB, 1 * ONE_GB),
    ];
    let ops = vec![make_op("C:\\src\\a.mp4", "D:\\dst\\a.mp4", 2 * ONE_GB as i64)];

    let est = estimate_space_with_disks(&ops, "D:\\dst", &disks).unwrap();
    assert_eq!(est.extra_bytes_required, 2 * ONE_GB);
    assert!(est.advice.contains("Espacio insuficiente"));
    assert!(est.warnings.iter().any(|w| w.contains("Espacio insuficiente")));
}

#[test]
fn test_large_files_warning() {
    let disks = vec![make_disk("C", "C:\\", 500 * ONE_GB, 100 * ONE_GB)];
    let ops = vec![
        make_op("C:\\src\\a.mp4", "C:\\dst\\a.mp4", 2 * ONE_GB as i64),
        make_op("C:\\src\\b.mp4", "C:\\dst\\b.mp4", 500 * ONE_GB as i64 / 1024),
    ];

    let est = estimate_space_with_disks(&ops, "C:\\dst", &disks).unwrap();
    assert!(est.warnings.iter().any(|w| w.contains("superan 1 GB")));
}

#[test]
fn test_render_and_sanitize() {
    let ctx = TemplateContext {
        file_type: "video".into(),
        extension: "MP4".into(),
        name: "My<File>:Name".into(),
        ext: "mp4".into(),
        group_name: "Show Name".into(),
        group_kind: "series".into(),
        year: "2024".into(),
        month: "01".into(),
        day: "31".into(),
        tag: "sci-fi".into(),
    };

    assert_eq!(
        render_template("{file_type}/{name}.{ext}", &ctx),
        "video/My_File__Name.mp4"
    );
    assert_eq!(
        render_template(
            "{group_kind}/{group_name}/{year}-{month}/{name}.{extension}",
            &ctx
        ),
        "series/Show Name/2024-01/My_File__Name.MP4"
    );
}

#[test]
fn test_sanitize_trailing_dot() {
    assert_eq!(sanitize_component("folder."), "folder");
    assert_eq!(sanitize_component("file."), "file");
}

#[test]
fn test_disk_for_path_longest_prefix() {
    let disks = vec![
        DiskInfo {
            name: "C".into(),
            mount_point: "C:\\".into(),
            total_bytes: 100,
            free_bytes: 50,
            used_bytes: 50,
        },
        DiskInfo {
            name: "D".into(),
            mount_point: "D:\\data".into(),
            total_bytes: 200,
            free_bytes: 100,
            used_bytes: 100,
        },
    ];

    let c_path = "C:\\Users\\file.txt";
    let d_path = "D:\\data\\archive\\file.txt";
    let unmatched = "E:\\file.txt";

    assert_eq!(disk_for_path(c_path, &disks).unwrap().name, "C");
    assert_eq!(disk_for_path(d_path, &disks).unwrap().name, "D");
    assert!(disk_for_path(unmatched, &disks).is_none());
}

#[test]
fn test_disk_for_path_case_insensitive_on_windows() {
    let disks = vec![DiskInfo {
        name: "C".into(),
        mount_point: "C:\\".into(),
        total_bytes: 100,
        free_bytes: 50,
        used_bytes: 50,
    }];

    let lower = "c:\\users";
    let upper = "C:\\Users";

    assert!(disk_for_path(lower, &disks).is_some());
    assert!(disk_for_path(upper, &disks).is_some());
}
