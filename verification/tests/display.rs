use code_grabber_core::config::BundleMode;
use code_grabber_core::display::{
    budget_card, format_bytes, job_status, mode_label, plural, plural_suffix, preview_text,
    truncate_end, truncate_middle, warning_heading, JobKind,
};
use code_grabber_core::numbers::format_number;

/// Byte sizes as the programs print them, through `f64`.
fn bytes_through_f64(bytes: usize) -> String {
    let units = ["B", "KB", "MB", "GB"];
    let mut value = bytes as f64;
    let mut unit = 0;
    while value >= 1024.0 && unit < units.len() - 1 {
        value /= 1024.0;
        unit += 1;
    }
    if unit == 0 {
        format!("{bytes} B")
    } else if value >= 10.0 {
        format!("{value:.0} {}", units[unit])
    } else {
        format!("{value:.1} {}", units[unit])
    }
}

#[test]
fn numbers_get_thousands_separators() {
    assert_eq!(format_number(0), "0");
    assert_eq!(format_number(999), "999");
    assert_eq!(format_number(1000), "1,000");
    assert_eq!(format_number(1234567), "1,234,567");
    assert_eq!(format_number(250000), "250,000");
}

#[test]
fn byte_sizes_use_the_largest_unit() {
    assert_eq!(format_bytes(0), "0 B");
    assert_eq!(format_bytes(1023), "1023 B");
    assert_eq!(format_bytes(1024), "1.0 KB");
    assert_eq!(format_bytes(1536), "1.5 KB");
    assert_eq!(format_bytes(10 * 1024), "10 KB");
    assert_eq!(format_bytes(5 * 1024 * 1024), "5.0 MB");
    assert_eq!(format_bytes(3 * 1024 * 1024 * 1024), "3.0 GB");
    assert_eq!(format_bytes(2048 * 1024 * 1024 * 1024), "2048 GB");
}

#[test]
fn byte_sizes_match_the_floating_point_rendering() {
    let mut samples: Vec<usize> = Vec::new();
    for n in 0..5000usize {
        samples.push(n);
        samples.push(n * 97 + 1000);
        samples.push(10 * 1024 - 60 + n);
        samples.push(1024 * 1024 - 600 + n * 3);
        samples.push(10 * 1024 * 1024 - 60000 + n * 41);
    }
    // Ties and the edges of each unit.
    for unit in [1usize << 10, 1 << 20, 1 << 30] {
        for k in 1..200usize {
            samples.push(unit * k / 20);
            samples.push(unit * k / 20 + 1);
            samples.push(unit * k / 20 - 1);
        }
    }
    // Sizes beyond 2^53, where `as f64` rounds.
    let mut x: usize = (1 << 53) - 5;
    while x < usize::MAX - (x >> 3) {
        samples.push(x);
        samples.push(x + 1);
        samples.push(x | 0x7ff);
        x += x >> 3;
    }
    samples.push(usize::MAX);
    samples.push(usize::MAX - 1024);
    for n in samples {
        assert_eq!(format_bytes(n), bytes_through_f64(n), "size {n}");
    }
}

#[test]
fn long_texts_are_shortened_in_the_middle() {
    assert_eq!(truncate_middle("short", 10), "short");
    assert_eq!(truncate_middle("abcdefghij", 10), "abcdefghij");
    assert_eq!(truncate_middle("abcdefghijk", 10), "abc...hijk");
    assert_eq!(truncate_middle("abcdef", 3), "...");
    assert_eq!(truncate_middle("abcdef", 2), "..");
    assert_eq!(truncate_middle("ééééééé", 5), "é...é");
}

#[test]
fn long_texts_are_shortened_at_the_end() {
    assert_eq!(truncate_end("short", 10), "short");
    assert_eq!(truncate_end("abcdefghijk", 8), "abcde...");
    assert_eq!(truncate_end("abcdef", 0), "");
    assert_eq!(truncate_end("abcdef", 3), "...");
}

#[test]
fn counts_carry_their_unit() {
    assert_eq!(plural(1, "file"), "1 file");
    assert_eq!(plural(0, "file"), "0 files");
    assert_eq!(plural(2500, "file"), "2,500 files");
    assert_eq!(plural_suffix(1), "");
    assert_eq!(plural_suffix(3), "s");
    assert_eq!(warning_heading(1), "1 warning");
    assert_eq!(warning_heading(4), "4 warnings");
}

#[test]
fn modes_have_lower_case_labels() {
    assert_eq!(mode_label(BundleMode::Complete), "complete");
    assert_eq!(mode_label(BundleMode::Core), "core");
    assert_eq!(mode_label(BundleMode::Compact), "compact");
    assert_eq!(mode_label(BundleMode::RepoMap), "map");
    assert_eq!(mode_label(BundleMode::Diff), "diff");
    assert_eq!(mode_label(BundleMode::Pinned), "pinned");
}

#[test]
fn previews_are_cut_at_a_character_boundary() {
    assert_eq!(preview_text("small"), "small");
    let exact = "a".repeat(40_000);
    assert_eq!(preview_text(&exact), exact);
    let long = "b".repeat(40_001);
    assert_eq!(
        preview_text(&long),
        format!("{}\n\n[preview truncated at 40000 bytes]", "b".repeat(40_000))
    );
    // A two-byte character starting at byte 39_999 ends after the limit.
    let straddling = format!("{}é{}", "c".repeat(39_999), "d".repeat(10));
    assert_eq!(
        preview_text(&straddling),
        format!("{}\n\n[preview truncated at 39999 bytes]", "c".repeat(39_999))
    );
    // One starting exactly at the limit is the cut itself.
    let at_limit = format!("{}é", "e".repeat(40_000));
    assert_eq!(
        preview_text(&at_limit),
        format!("{}\n\n[preview truncated at 40000 bytes]", "e".repeat(40_000))
    );
}

#[test]
fn status_lines_describe_the_finished_job() {
    assert_eq!(
        job_status(JobKind::Bundle, 12, 34567, true, true),
        "Bundle complete: 12 files, 34,567 tokens, wrote output, copied to clipboard."
    );
    assert_eq!(
        job_status(JobKind::Inspect, 1, 5, false, false),
        "Scan complete: 1 files, 5 tokens."
    );
    assert_eq!(job_status(JobKind::InitProfile, 1234, 0, false, true), "Done: 1234 files, 0 tokens, copied to clipboard.");
}

#[test]
fn budget_card_says_over_or_left() {
    assert_eq!(budget_card(300_000, 250_000), ("50,000 over".to_string(), true));
    assert_eq!(budget_card(1_000, 250_000), ("249,000 left".to_string(), false));
    assert_eq!(budget_card(5, 5), ("0 left".to_string(), false));
}
