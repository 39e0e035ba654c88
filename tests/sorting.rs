use photosort::calendar::{date_of_date_time_text, date_of_timestamp, month_name_text, Date};
use photosort::placement::{decide, locate, record_copy, record_existing, Placement};
use photosort::planner::target_path;
use photosort::report::Labels;
use photosort::resolve::{date_from_exif, exif_compatible_extension, resolve_date};
use photosort::summary::{Elapsed, Summary};
use photosort::text::{decimal_text, signed_decimal_text};

// 2022-01-06 12:22:59 UTC
const MODIFIED: i64 = 1641495779;

fn tiff_with_date(date: Option<&str>) -> Vec<u8> {
    let mut t: Vec<u8> = vec![0x49, 0x49, 0x2a, 0x00, 0x08, 0x00, 0x00, 0x00];
    match date {
        Some(text) => {
            // IFD0: one entry, the pointer to the Exif IFD at offset 26.
            t.extend_from_slice(&[0x01, 0x00]);
            t.extend_from_slice(&[0x69, 0x87, 0x04, 0x00, 0x01, 0x00, 0x00, 0x00, 26, 0, 0, 0]);
            t.extend_from_slice(&[0, 0, 0, 0]);
            // Exif IFD: DateTimeOriginal, ASCII, 20 bytes at offset 44.
            t.extend_from_slice(&[0x01, 0x00]);
            t.extend_from_slice(&[0x03, 0x90, 0x02, 0x00, 20, 0, 0, 0, 44, 0, 0, 0]);
            t.extend_from_slice(&[0, 0, 0, 0]);
            t.extend_from_slice(text.as_bytes());
            t.push(0);
        }
        None => {
            // IFD0: one entry, the orientation.
            t.extend_from_slice(&[0x01, 0x00]);
            t.extend_from_slice(&[0x12, 0x01, 0x03, 0x00, 0x01, 0x00, 0x00, 0x00, 1, 0, 0, 0]);
            t.extend_from_slice(&[0, 0, 0, 0]);
        }
    }
    t
}

fn jpeg_with_exif(date: Option<&str>) -> Vec<u8> {
    let tiff = tiff_with_date(date);
    let len = (2 + 6 + tiff.len()) as u16;
    let mut j: Vec<u8> = vec![0xff, 0xd8, 0xff, 0xe1, (len >> 8) as u8, (len & 0xff) as u8];
    j.extend_from_slice(b"Exif\0\0");
    j.extend_from_slice(&tiff);
    j.extend_from_slice(&[0xff, 0xd9]);
    j
}

fn jpeg_without_exif() -> Vec<u8> {
    vec![0xff, 0xd8, 0xff, 0xd9]
}

fn plain_labels() -> Labels {
    Labels {
        completed: "Completed".to_string(),
        copied: "Copied".to_string(),
        skipped: "Skipped".to_string(),
        exif_error: "Error".to_string(),
        duplicate: "Skipped".to_string(),
        failed: "Failed".to_string(),
    }
}

fn ymd(year: i32, month: u32, day: u32) -> Date {
    Date { year, month, day }
}

#[test]
fn init_is_empty() {
    let s = Summary::init();
    assert_eq!(s.scan_error_count, 0);
    assert_eq!(s.error_count, 0);
    assert_eq!(s.skipped_count, 0);
    assert_eq!(s.duplicate_count, 0);
    assert_eq!(s.exif_error_count, 0);
    assert_eq!(s.copy_count, 0);
    assert_eq!(s.copied_bytes, 0);
    assert_eq!(s.duration, Elapsed::zero());
    assert!(s.errored_files.is_empty());
    assert!(s.duplicate_files.is_empty());
    assert!(s.exif_errored_files.is_empty());
}

#[test]
fn marks_count_and_keep_paths_in_order() {
    let mut s = Summary::init();
    s.mark_scan_error();
    s.mark_error("a".to_string());
    s.mark_error("b".to_string());
    s.mark_skipped();
    s.mark_duplicate("c".to_string());
    s.mark_exif_error("d".to_string());
    s.mark_copied(10);
    s.mark_copied(32);
    s.set_duration(Elapsed { secs: 3, nanos: 5 });
    assert_eq!(s.scan_error_count, 1);
    assert_eq!(s.error_count, 2);
    assert_eq!(s.errored_files, vec!["a".to_string(), "b".to_string()]);
    assert_eq!(s.skipped_count, 1);
    assert_eq!(s.duplicate_count, 1);
    assert_eq!(s.duplicate_files, vec!["c".to_string()]);
    assert_eq!(s.exif_error_count, 1);
    assert_eq!(s.exif_errored_files, vec!["d".to_string()]);
    assert_eq!(s.copy_count, 2);
    assert_eq!(s.copied_bytes, 42);
    assert_eq!(s.duration, Elapsed { secs: 3, nanos: 5 });
}

#[test]
fn render_of_clean_run_is_header_only() {
    let mut s = Summary::init();
    s.mark_copied(181870);
    let r = s.render(&plain_labels(), "1s", "177.6 KiB");
    assert_eq!(r, "\nCompleted in 1s\nCopied 1 files totalling 177.6 KiB\n");
}

#[test]
fn render_shows_only_nonzero_blocks() {
    let mut s = Summary::init();
    s.mark_skipped();
    s.mark_skipped();
    s.mark_error("x/y.jpg".to_string());
    let r = s.render(&plain_labels(), "0s", "0 B");
    assert_eq!(
        r,
        "\nCompleted in 0s\nCopied 0 files totalling 0 B\n\
         Skipped copying 2 files since they were already present at the target\n\
         Failed to copy 1 files. The following files were not copied - \nx/y.jpg\n"
    );
    assert!(!r.contains("exif"));
    assert!(!r.contains("to scan"));
    assert!(!r.contains("different size"));
}

#[test]
fn render_lists_every_block() {
    let mut s = Summary::init();
    s.mark_exif_error("e1".to_string());
    s.mark_exif_error("e2".to_string());
    s.mark_duplicate("d1".to_string());
    s.mark_scan_error();
    let r = s.render(&plain_labels(), "2m", "5 B");
    assert_eq!(
        r,
        "\nCompleted in 2m\nCopied 0 files totalling 5 B\n\
         Error reading the exif data for 2 files. They were copied using the file modified time - \ne1\ne2\n\
         Skipped copying 1 files since they were present at the target but was of a different size - \nd1\n\
         Failed to scan 1 files.\n"
    );
}

#[test]
fn display_formats_duration_and_size() {
    let mut s = Summary::init();
    s.mark_copied(500);
    s.mark_copied(12);
    s.set_duration(Elapsed { secs: 61, nanos: 0 });
    let r = s.display();
    assert!(r.contains("Completed"));
    assert!(r.contains(" in 1m 1s\n"));
    assert!(r.contains(" 2 files totalling 512 B\n"));
    assert!(!r.contains("Skipped"));
    assert!(!r.contains("Failed"));
}

#[test]
fn display_size_uses_binary_prefixes() {
    let mut s = Summary::init();
    s.mark_copied(181870);
    let r = s.display();
    assert!(r.contains(" 1 files totalling 177.6 kiB\n"));
}

#[test]
fn decimal_texts() {
    assert_eq!(decimal_text(0), "0");
    assert_eq!(decimal_text(7), "7");
    assert_eq!(decimal_text(2008), "2008");
    assert_eq!(decimal_text(u64::MAX), "18446744073709551615");
    assert_eq!(signed_decimal_text(-45), "-45");
    assert_eq!(signed_decimal_text(i64::MIN), "-9223372036854775808");
    assert_eq!(signed_decimal_text(30), "30");
}

#[test]
fn month_names() {
    assert_eq!(month_name_text(1), "January");
    assert_eq!(month_name_text(5), "May");
    assert_eq!(month_name_text(12), "December");
}

#[test]
fn target_path_layout() {
    assert_eq!(
        target_path("/target", ymd(2008, 5, 30), "jpeg_with_valid_exif.jpg"),
        "/target/2008/May/30/jpeg_with_valid_exif.jpg"
    );
    assert_eq!(
        target_path("/target/", ymd(2022, 1, 6), "non_image_file.txt"),
        "/target/2022/January/6/non_image_file.txt"
    );
    assert_eq!(target_path("", ymd(-3, 12, 1), "a"), "-3/December/1/a");
}

#[test]
fn target_path_is_deterministic_and_distinguishes() {
    let a = target_path("/t", ymd(2022, 1, 6), "a.jpg");
    assert_eq!(a, target_path("/t", ymd(2022, 1, 6), "a.jpg"));
    assert_ne!(a, target_path("/t", ymd(2022, 1, 6), "b.jpg"));
    assert_ne!(a, target_path("/t", ymd(2022, 1, 16), "a.jpg"));
    assert_ne!(target_path("/t", ymd(2021, 11, 1), "x"), target_path("/t", ymd(2021, 1, 11), "x"));
}

#[test]
fn exif_extensions() {
    assert!(exif_compatible_extension("a.jpg"));
    assert!(exif_compatible_extension("a.JPG"));
    assert!(exif_compatible_extension("b.JpEg"));
    assert!(exif_compatible_extension("archive.tar.jpg"));
    assert!(!exif_compatible_extension("a.png"));
    assert!(!exif_compatible_extension("jpg"));
    assert!(!exif_compatible_extension(".jpg"));
    assert!(!exif_compatible_extension("a.jpgx"));
    assert!(!exif_compatible_extension(".."));
    assert!(!exif_compatible_extension("a."));
}

#[test]
fn timestamps_to_utc_dates() {
    assert_eq!(date_of_timestamp(MODIFIED), Some(ymd(2022, 1, 6)));
    assert_eq!(date_of_timestamp(0), Some(ymd(1970, 1, 1)));
    assert_eq!(date_of_timestamp(-1), Some(ymd(1969, 12, 31)));
    assert_eq!(date_of_timestamp(i64::MAX), None);
}

#[test]
fn date_time_texts() {
    assert_eq!(date_of_date_time_text("2008-05-30 15:56:01"), Some(ymd(2008, 5, 30)));
    assert_eq!(date_of_date_time_text("2008:05:30 15:56:01"), None);
    assert_eq!(date_of_date_time_text("2008-02-30 15:56:01"), None);
    assert_eq!(date_of_date_time_text(""), None);
}

#[test]
fn embedded_dates() {
    let valid = jpeg_with_exif(Some("2008:05:30 15:56:01"));
    assert_eq!(date_from_exif("a.jpg", Some(&valid)), (Some(ymd(2008, 5, 30)), false));
    assert_eq!(date_from_exif("a.txt", Some(&valid)), (None, false));
    let no_date = jpeg_with_exif(None);
    assert_eq!(date_from_exif("a.jpg", Some(&no_date)), (None, true));
    assert_eq!(date_from_exif("a.jpg", Some(&jpeg_without_exif())), (None, false));
    assert_eq!(date_from_exif("a.jpg", Some(b"not an image")), (None, true));
    assert_eq!(date_from_exif("a.jpg", None), (None, true));
    let bad_date = jpeg_with_exif(Some("2008:13:30 15:56:01"));
    assert_eq!(date_from_exif("a.jpeg", Some(&bad_date)), (None, true));
}

#[test]
fn fallback_uses_modified_time_and_warns_once() {
    let mut s = Summary::init();
    let no_date = jpeg_with_exif(None);
    let d = resolve_date(&mut s, "src/x.jpg".to_string(), "x.jpg", Some(&no_date), Some(MODIFIED));
    assert_eq!(d, Some(ymd(2022, 1, 6)));
    assert_eq!(s.exif_error_count, 1);
    assert_eq!(s.exif_errored_files, vec!["src/x.jpg".to_string()]);
    assert_eq!(s.error_count, 0);
}

#[test]
fn unreadable_modified_time_is_an_error() {
    let mut s = Summary::init();
    let d = resolve_date(&mut s, "src/n.txt".to_string(), "n.txt", None, None);
    assert_eq!(d, None);
    assert_eq!(s.error_count, 1);
    assert_eq!(s.errored_files, vec!["src/n.txt".to_string()]);
    assert_eq!(s.exif_error_count, 0);
}

#[test]
fn embedded_date_needs_no_modified_time() {
    let mut s = Summary::init();
    let valid = jpeg_with_exif(Some("2008:05:30 15:56:01"));
    let d = resolve_date(&mut s, "p.jpg".to_string(), "p.jpg", Some(&valid), None);
    assert_eq!(d, Some(ymd(2008, 5, 30)));
    assert_eq!(s.error_count, 0);
    assert_eq!(s.exif_error_count, 0);
}

#[test]
fn decisions_by_size() {
    assert_eq!(decide(10, None), Placement::Copy);
    assert_eq!(decide(10, Some(10)), Placement::SkipIdentical);
    assert_eq!(decide(10, Some(0)), Placement::SkipConflict);
}

#[test]
fn same_size_different_bytes_is_skipped() {
    // Sizes alone decide: the destination's bytes are never compared.
    let mut s = Summary::init();
    let r = record_existing(&mut s, "a.txt".to_string(), Some(5), Some(5));
    assert_eq!(r, Some(Placement::SkipIdentical));
    assert_eq!(s.skipped_count, 1);
    assert_eq!(s.copy_count, 0);
    assert_eq!(s.duplicate_count, 0);
}

#[test]
fn different_size_is_a_duplicate() {
    let mut s = Summary::init();
    let r = record_existing(&mut s, "src/non_image_file.txt".to_string(), Some(0), Some(27));
    assert_eq!(r, Some(Placement::SkipConflict));
    assert_eq!(s.duplicate_count, 1);
    assert_eq!(s.duplicate_files, vec!["src/non_image_file.txt".to_string()]);
    assert_eq!(s.copy_count, 0);
    assert_eq!(s.skipped_count, 0);
}

#[test]
fn unreadable_size_is_an_error() {
    let mut s = Summary::init();
    assert_eq!(record_existing(&mut s, "a".to_string(), None, Some(3)), None);
    assert_eq!(record_existing(&mut s, "b".to_string(), Some(3), None), None);
    assert_eq!(s.error_count, 2);
    assert_eq!(s.skipped_count + s.duplicate_count, 0);
}

#[test]
fn copies_are_counted() {
    let mut s = Summary::init();
    record_copy(&mut s, "a".to_string(), Some(100));
    record_copy(&mut s, "b".to_string(), None);
    assert_eq!(s.copy_count, 1);
    assert_eq!(s.copied_bytes, 100);
    assert_eq!(s.error_count, 1);
    assert_eq!(s.errored_files, vec!["b".to_string()]);
}

struct Source {
    name: &'static str,
    contents: Vec<u8>,
}

fn sources() -> Vec<Source> {
    vec![
        Source { name: "jpeg_with_valid_exif.jpg", contents: jpeg_with_exif(Some("2008:05:30 15:56:01")) },
        Source { name: "jpeg_with_no_exif.jpg", contents: jpeg_without_exif() },
        Source { name: "jpeg_with_valid_exif_but_no_datetimeoriginal.jpg", contents: jpeg_with_exif(None) },
        Source { name: "non_image_file.txt", contents: b"some text".to_vec() },
    ]
}

/// One run over `files` into `target`, a list of (path, size), with every
/// read and copy succeeding.
fn run(files: &[Source], target: &mut Vec<(String, u64)>) -> Summary {
    let mut s = Summary::init();
    for f in files {
        let path = format!("src/{}", f.name);
        let dest = locate(&mut s, path.clone(), f.name, Some(&f.contents), Some(MODIFIED), "/target").unwrap();
        let len = f.contents.len() as u64;
        match target.iter().find(|(p, _)| *p == dest) {
            Some((_, existing)) => {
                record_existing(&mut s, path, Some(len), Some(*existing));
            }
            None => {
                target.push((dest, len));
                record_copy(&mut s, path, Some(len));
            }
        }
    }
    s
}

#[test]
fn end_to_end_four_files() {
    let files = sources();
    let mut target: Vec<(String, u64)> = Vec::new();
    let first = run(&files, &mut target);
    let paths: Vec<&str> = target.iter().map(|(p, _)| p.as_str()).collect();
    assert_eq!(
        paths,
        vec![
            "/target/2008/May/30/jpeg_with_valid_exif.jpg",
            "/target/2022/January/6/jpeg_with_no_exif.jpg",
            "/target/2022/January/6/jpeg_with_valid_exif_but_no_datetimeoriginal.jpg",
            "/target/2022/January/6/non_image_file.txt",
        ]
    );
    assert_eq!(first.copy_count, 4);
    assert_eq!(first.copied_bytes, files.iter().map(|f| f.contents.len() as u64).sum::<u64>());
    assert_eq!(first.exif_error_count, 1);
    assert_eq!(
        first.exif_errored_files,
        vec!["src/jpeg_with_valid_exif_but_no_datetimeoriginal.jpg".to_string()]
    );
    assert_eq!(first.skipped_count + first.duplicate_count + first.error_count + first.scan_error_count, 0);

    let second = run(&files, &mut target);
    assert_eq!(target.len(), 4);
    assert_eq!(second.skipped_count, 4);
    assert_eq!(second.copy_count, 0);
    assert_eq!(second.copied_bytes, 0);
    assert_eq!(second.duplicate_count, 0);
    assert_eq!(second.error_count, 0);
}

#[test]
fn rerun_with_a_changed_size_is_a_duplicate() {
    let files = sources();
    let mut target: Vec<(String, u64)> = Vec::new();
    run(&files, &mut target);
    let empty = vec![Source { name: "non_image_file.txt", contents: Vec::new() }];
    let third = run(&empty, &mut target);
    assert_eq!(third.duplicate_count, 1);
    assert_eq!(third.copy_count, 0);
    assert_eq!(third.skipped_count, 0);
    assert_eq!(target.len(), 4);
}

#[test]
fn locate_plans_from_the_resolved_date() {
    let mut s = Summary::init();
    let valid = jpeg_with_exif(Some("2008:05:30 15:56:01"));
    assert_eq!(
        locate(&mut s, "in/v.JPG".to_string(), "v.JPG", Some(&valid), Some(MODIFIED), "/out"),
        Some("/out/2008/May/30/v.JPG".to_string())
    );
    assert_eq!(locate(&mut s, "in/n.txt".to_string(), "n.txt", None, None, "/out"), None);
    assert_eq!(s.error_count, 1);
    assert_eq!(s.exif_error_count, 0);
}
