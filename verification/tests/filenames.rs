use gmail_attachments::filename::{
    append_filename_suffix, is_invalid_filename_char, sanitize_download_filename,
    sanitize_with_fallback, synthesize_filename, unique_filename, UsedNames,
};

#[test]
fn sanitize_download_filename_replaces_path_and_control_chars() {
    let filename = sanitize_download_filename("../bad\u{202e}\nname.pdf", 3, "application/pdf");
    assert_eq!(filename, "_bad__name.pdf");
}

#[test]
fn sanitize_download_filename_uses_synthesized_name_when_empty() {
    let filename = sanitize_download_filename("\n\t", 2, "image/jpeg");
    assert_eq!(filename, "part-2.jpg");
}

#[test]
fn unique_filename_suffixes_duplicate_names() {
    let mut used = UsedNames::new();
    assert_eq!(unique_filename("report.pdf", &mut used), "report.pdf");
    assert_eq!(unique_filename("report.pdf", &mut used), "report-2.pdf");
    assert_eq!(unique_filename("archive", &mut used), "archive");
    assert_eq!(unique_filename("archive", &mut used), "archive-2");
}

#[test]
fn unique_filename_takes_the_first_free_number() {
    let mut used = UsedNames::new();
    assert!(used.insert("a.txt".to_string()));
    assert!(used.insert("a-2.txt".to_string()));
    assert!(used.insert("a-4.txt".to_string()));
    assert!(!used.insert("a-4.txt".to_string()));
    assert_eq!(unique_filename("a.txt", &mut used), "a-3.txt");
    assert_eq!(unique_filename("a.txt", &mut used), "a-5.txt");
    assert_eq!(unique_filename("a-2.txt", &mut used), "a-2-2.txt");
}

#[test]
fn unique_names_are_always_new() {
    let mut used = UsedNames::new();
    let mut given: Vec<String> = Vec::new();
    for name in ["x", "x", "x-2", "x", "x-3", "x-2-2", "x-2", "x"] {
        let fresh = unique_filename(name, &mut used);
        assert!(!given.contains(&fresh), "{fresh}");
        given.push(fresh);
    }
    assert_eq!(given, ["x", "x-2", "x-2-2", "x-3", "x-3-2", "x-2-2-2", "x-2-3", "x-4"]);
}

fn expected_suffix(base_name: &str, suffix: usize) -> String {
    if let Some((stem, extension)) = base_name.rsplit_once('.') {
        if !stem.is_empty() && !extension.is_empty() {
            return format!("{stem}-{suffix}.{extension}");
        }
    }
    format!("{base_name}-{suffix}")
}

#[test]
fn suffix_goes_before_the_extension() {
    assert_eq!(append_filename_suffix("report.pdf", 2), "report-2.pdf");
    assert_eq!(append_filename_suffix("backup.tar.gz", 10), "backup.tar-10.gz");
    assert_eq!(append_filename_suffix("archive", 3), "archive-3");
    assert_eq!(append_filename_suffix(".hidden", 2), ".hidden-2");
    assert_eq!(append_filename_suffix("ends.", 2), "ends.-2");
    for name in ["", ".", "..", "a.", ".a", "a.b", "a..b", "a.b.", "\u{e9}.\u{fc}"] {
        for k in [0, 2, 9, 10, 123456] {
            assert_eq!(append_filename_suffix(name, k), expected_suffix(name, k), "{name}");
        }
    }
}

fn expected_name(raw: &str, fallback: &str) -> String {
    let source = if raw.trim().is_empty() { fallback } else { raw };
    let mut cleaned = String::new();
    for ch in source.chars() {
        cleaned.push(if is_invalid_filename_char(ch) { '_' } else { ch });
    }
    let trimmed = cleaned.trim_matches([' ', '.']).trim();
    if trimmed.is_empty() || trimmed == "." || trimmed == ".." {
        fallback.to_string()
    } else {
        trimmed.to_string()
    }
}

#[test]
fn names_are_cleaned_and_trimmed() {
    for raw in [
        "", " ", "...", ". . .", "a", " a ", "..a..", "a b.txt", "\u{3000}.\u{3000}",
        "\u{3000}..\u{3000}", "\u{3000}...\u{3000}", "\u{3000}.a", "a.\u{a0}", "\u{a0}a", "C:\\x\\y",
        "/etc/passwd", "a\u{0}b", "<>|?*\"", "\u{2028}", "\u{85}", "caf\u{e9}.png", "\t.a\n",
    ] {
        for fallback in ["part-0.bin", "x", " y ", "a/b"] {
            assert_eq!(
                sanitize_with_fallback(raw, fallback.to_string()),
                expected_name(raw, fallback),
                "{raw:?} {fallback:?}"
            );
        }
    }
}

#[test]
fn names_never_lead_elsewhere() {
    for raw in ["..", ".", "/", "../..", "..\\..", "C:", "\u{3000}..\u{3000}", "a/../b"] {
        let name = sanitize_download_filename(raw, 1, "text/plain");
        assert!(!name.is_empty() && name != "." && name != "..");
        assert!(name.chars().all(|c| !is_invalid_filename_char(c)), "{name}");
        assert_eq!(name.trim(), name);
    }
}

#[test]
fn clean_names_are_kept() {
    for raw in ["report.pdf", "a b", "x-2.tar.gz", "_", "caf\u{e9}"] {
        assert_eq!(sanitize_download_filename(raw, 0, "image/png"), raw);
    }
}

#[test]
fn invalid_characters_are_those_of_paths_shells_and_controls() {
    for c in ['/', '\\', ':', '*', '?', '"', '<', '>', '|', '\n', '\u{7f}', '\u{202e}', '\u{feff}'] {
        assert!(is_invalid_filename_char(c));
    }
    for c in ['a', '.', ' ', '-', '_', '\'', '&', ';', '\u{e9}', '\u{a0}'] {
        assert!(!is_invalid_filename_char(c));
    }
}

#[test]
fn made_up_names_follow_the_type() {
    assert_eq!(synthesize_filename(0, "image/png"), "part-0.png");
    assert_eq!(synthesize_filename(12, "application/pdf"), "part-12.pdf");
    assert_eq!(synthesize_filename(3, "image/gif"), "part-3.gif");
    assert_eq!(synthesize_filename(3, "image/webp"), "part-3.webp");
    assert_eq!(synthesize_filename(3, "image/svg+xml"), "part-3.svg");
    assert_eq!(synthesize_filename(3, "application/zip"), "part-3.zip");
    assert_eq!(synthesize_filename(3, "text/plain"), "part-3.txt");
    assert_eq!(synthesize_filename(3, "text/html"), "part-3.html");
    assert_eq!(synthesize_filename(3, "text/csv"), "part-3.csv");
    assert_eq!(synthesize_filename(3, "x/../../y"), "part-3.bin");
}

#[test]
fn one_name_is_numbered_from_two_on() {
    let mut used = UsedNames::new();
    assert_eq!(unique_filename("a.tar.gz", &mut used), "a.tar.gz");
    for n in 2..=12 {
        assert_eq!(unique_filename("a.tar.gz", &mut used), format!("a.tar-{n}.gz"));
    }
}
