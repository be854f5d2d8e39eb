use std::path::PathBuf;

use gmail_attachments::error::GwsError;
use gmail_attachments::parts::{select_download_parts, skipped_inline_count, OriginalPart};
use gmail_attachments::paths::display_path;
use gmail_attachments::plan::{check_targets, ensure_target_path, plan_downloads, plan_targets};

fn regular_part(filename: &str, attachment_id: &str) -> OriginalPart {
    OriginalPart {
        filename: filename.to_string(),
        content_type: "application/pdf".to_string(),
        size: 12,
        attachment_id: attachment_id.to_string(),
        content_id: None,
    }
}

fn inline_part(filename: &str, attachment_id: &str) -> OriginalPart {
    OriginalPart {
        filename: filename.to_string(),
        content_type: "image/png".to_string(),
        size: 12,
        attachment_id: attachment_id.to_string(),
        content_id: Some("image@example.com".to_string()),
    }
}

#[test]
fn select_download_parts_skips_inline_by_default() {
    let parts = vec![
        regular_part("report.pdf", "att-1"),
        inline_part("logo.png", "att-2"),
    ];
    let selected = select_download_parts(&parts, false);
    assert_eq!(selected.len(), 1);
    assert_eq!(selected[0].1.attachment_id, "att-1");
}

#[test]
fn select_download_parts_includes_inline_when_requested() {
    let parts = vec![
        regular_part("report.pdf", "att-1"),
        inline_part("logo.png", "att-2"),
    ];
    let selected = select_download_parts(&parts, true);
    assert_eq!(selected.len(), 2);
}

#[test]
fn selection_keeps_positions_and_counts_the_rest() {
    let parts = vec![
        inline_part("a.png", "att-0"),
        regular_part("b.pdf", "att-1"),
        inline_part("c.png", "att-2"),
        regular_part("d.pdf", "att-3"),
    ];
    let selected = select_download_parts(&parts, false);
    let positions: Vec<usize> = selected.iter().map(|entry| entry.0).collect();
    assert_eq!(positions, [1, 3]);
    assert_eq!(selected[1].1.filename, "d.pdf");
    assert_eq!(skipped_inline_count(&parts, false), 2);
    assert_eq!(skipped_inline_count(&parts, true), 0);
    assert_eq!(selected.len() + skipped_inline_count(&parts, false), parts.len());
    assert_eq!(select_download_parts(&parts, true).len(), parts.len());
    assert!(parts[0].is_inline() && !parts[1].is_inline());
}

#[test]
fn plan_downloads_rejects_existing_file_without_overwrite() {
    let dir = PathBuf::from("/work/downloads");
    let parts = vec![regular_part("report.pdf", "att-1")];
    let selected = select_download_parts(&parts, false);
    let err = plan_downloads(&selected, &dir, false, &[true]).unwrap_err();
    assert!(err.message().contains("Refusing to overwrite"));
    assert_eq!(
        err.message(),
        format!(
            "Refusing to overwrite existing file '{}'; pass --overwrite to replace it",
            dir.join("report.pdf").display()
        )
    );
}

#[test]
fn plan_downloads_allows_existing_file_with_overwrite() {
    let dir = PathBuf::from("/work/downloads");
    let target = dir.join("report.pdf");
    let parts = vec![regular_part("report.pdf", "att-1")];
    let selected = select_download_parts(&parts, false);
    let planned = plan_downloads(&selected, &dir, true, &[true]).unwrap();
    assert_eq!(planned.len(), 1);
    assert_eq!(planned[0].path, target);
}

#[test]
fn plan_gives_each_part_its_own_place() {
    let dir = PathBuf::from("downloads");
    let parts = vec![
        regular_part("a.pdf", "att-0"),
        regular_part("../a.pdf", "att-1"),
        regular_part("a.pdf", "att-2"),
        regular_part("", "att-3"),
        regular_part("part-3.pdf", "att-4"),
        regular_part("/etc/passwd", "att-5"),
    ];
    let selected = select_download_parts(&parts, false);
    let planned = plan_targets(&selected, &dir);
    let names: Vec<&str> = planned.iter().map(|item| item.filename.as_str()).collect();
    assert_eq!(
        names,
        ["a.pdf", "_a.pdf", "a-2.pdf", "part-3.pdf", "part-3-2.pdf", "_etc_passwd"]
    );
    for (i, item) in planned.iter().enumerate() {
        assert_eq!(item.original_index, i);
        assert_eq!(item.part.attachment_id, format!("att-{i}"));
        assert_eq!(item.path, dir.join(names[i]));
        assert!(item.path.starts_with(&dir));
    }
    assert!(plan_downloads(&selected, &dir, false, &[false; 6]).is_ok());
}

#[test]
fn first_existing_target_is_named() {
    let dir = PathBuf::from("downloads");
    let parts = vec![
        regular_part("a", "att-0"),
        regular_part("b", "att-1"),
        regular_part("c", "att-2"),
    ];
    let selected = select_download_parts(&parts, false);
    let err = plan_downloads(&selected, &dir, false, &[false, true, true]).unwrap_err();
    assert_eq!(
        err.message(),
        format!(
            "Refusing to overwrite existing file '{}'; pass --overwrite to replace it",
            dir.join("b").display()
        )
    );
    let planned = plan_targets(&selected, &dir);
    assert!(check_targets(&planned, &dir, &[false, false, true], false).is_err());
    assert!(check_targets(&planned, &dir, &[false, false, false], false).is_ok());
    assert!(check_targets(&planned, &dir, &[true, true, true], true).is_ok());
    assert!(check_targets(&planned, &PathBuf::from("other"), &[false, false, false], true).is_err());
}

#[test]
fn target_outside_the_directory_is_refused() {
    let dir = PathBuf::from("/work/out");
    let err = ensure_target_path(&dir, &PathBuf::from("/work/out2/a"), false, true).unwrap_err();
    assert!(matches!(err, GwsError::Validation(_)));
    assert_eq!(
        err.message(),
        "Attachment target '/work/out2/a' escapes --output-dir '/work/out'"
    );
    assert!(ensure_target_path(&dir, &PathBuf::from("/work/out/a"), false, false).is_ok());
    assert!(ensure_target_path(&dir, &PathBuf::from("/work/out/a"), true, true).is_ok());
    assert!(ensure_target_path(&dir, &PathBuf::from("/work/out//b/c"), false, false).is_ok());
    assert!(ensure_target_path(&dir, &PathBuf::from("/work/out/a"), true, false).is_err());
}

#[test]
fn path_text_is_that_of_the_standard_library() {
    let path = PathBuf::from("/work/caf\u{e9}/x.pdf");
    assert_eq!(display_path(&path), path.display().to_string());
}

#[test]
fn directories_with_two_leading_separators_are_ordinary_here() {
    let parts = vec![regular_part("a", "att-0"), regular_part("a", "att-1")];
    let selected = select_download_parts(&parts, false);
    for dir in [
        "//",
        "//x",
        "//x/y",
        "\\\\server",
        "\\\\server\\share\\",
        "\\\\?\\C:\\",
        "\\\\?\\UNC\\server\\share\\",
    ] {
        let dir = PathBuf::from(dir);
        let planned = plan_downloads(&selected, &dir, false, &[false, false]).unwrap();
        assert_eq!(planned[0].path, dir.join("a"));
        assert_eq!(planned[1].path, dir.join("a-2"));
        assert_ne!(planned[0].path, planned[1].path);
        assert_eq!(planned[0].path.parent(), Some(dir.as_path()));
        let err = plan_downloads(&selected, &dir, false, &[false, true]).unwrap_err();
        assert_eq!(
            err.message(),
            format!(
                "Refusing to overwrite existing file '{}'; pass --overwrite to replace it",
                dir.join("a-2").display()
            )
        );
    }
}

#[test]
fn the_first_parts_are_planned_as_in_the_whole_message() {
    let dir = PathBuf::from("/work/out");
    let parts: Vec<OriginalPart> = ["x", "x-2", "x", "../x", "x"]
        .iter()
        .enumerate()
        .map(|(i, name)| regular_part(name, &format!("att-{i}")))
        .collect();
    let selected = select_download_parts(&parts, false);
    let all = plan_downloads(&selected, &dir, false, &[false; 5]).unwrap();
    let names: Vec<&str> = all.iter().map(|item| item.filename.as_str()).collect();
    assert_eq!(names, ["x", "x-2", "x-3", "_x", "x-4"]);
    for k in 0..=5 {
        let first = plan_downloads(&selected[..k], &dir, false, &[false; 5][..k]).unwrap();
        assert_eq!(first.len(), k);
        for (item, whole) in first.iter().zip(&all) {
            assert_eq!(item.original_index, whole.original_index);
            assert_eq!(item.part.attachment_id, whole.part.attachment_id);
            assert_eq!(item.filename, whole.filename);
            assert_eq!(item.path, whole.path);
        }
    }
}
