use label_audit::report::format_label;
use label_audit::report::render_label_counts;
use label_audit::report::run_audit;
use label_audit::report::Mode;
use label_audit::scanner::get_label_counts;
use label_audit::scanner::FileEntry;

fn sample_tree() -> Vec<FileEntry> {
    vec![
        FileEntry { path: "bad.rs".to_string(), content: "fn naked() {}".to_string() },
        FileEntry {
            path: "good.rs".to_string(),
            content: "#[tested]\nfn covered() {}\n#[trivial]\nfn tiny() {}".to_string(),
        },
    ]
}

#[test]
fn format_label_keeps_the_matched_marker() {
    assert!(format_label(&"#[tested]".to_string()).contains("#[tested]"));
    assert!(format_label(&"#[parent_tested]".to_string()).contains("#[parent_tested]"));
    assert!(format_label(&"#[untested]".to_string()).contains("#[untested]"));
    assert!(format_label(&"#[trivial]".to_string()).contains("#[trivial]"));
    assert!(format_label(&"#[not_a_fn]".to_string()).contains("#[not_a_fn]"));
}

#[test]
fn format_label_renders_nothing_for_unknown_text() {
    let r = format_label(&"just a comment".to_string());
    assert!(!r.contains("#["));
}

#[test]
fn quiet_mode_prints_warnings_and_failure_banner() {
    let files = sample_tree();
    let report = run_audit(&files, Mode::Quiet);
    assert_eq!(report.lines.len(), 2);
    assert!(report.lines[0].contains("Unlabeled function on line "));
    assert!(report.lines[0].contains("0"));
    assert!(report.lines[0].contains("bad.rs"));
    assert!(report.lines[1].contains("Not all function labelled!"));
}

#[test]
fn quiet_mode_celebrates_a_fully_labelled_tree() {
    let files = vec![FileEntry {
        path: "good.rs".to_string(),
        content: "#[tested]\nfn covered() {}".to_string(),
    }];
    let report = run_audit(&files, Mode::Quiet);
    assert_eq!(report.lines.len(), 1);
    assert!(report.lines[0].contains("All function labelled!"));
    assert!(!report.lines[0].contains("Not all"));
}

#[test]
fn quiet_mode_on_empty_tree_celebrates() {
    let files: Vec<FileEntry> = Vec::new();
    let report = run_audit(&files, Mode::Quiet);
    assert_eq!(report.lines.len(), 1);
    assert!(report.lines[0].contains("All function labelled!"));
}

#[test]
fn verbose_mode_prints_no_banner_and_omits_empty_files() {
    let files = sample_tree();
    let report = run_audit(&files, Mode::Verbose);
    // one block for good.rs: header, two label lines, blank separator
    assert_eq!(report.lines.len(), 4);
    assert!(report.lines[0].contains("good.rs"));
    assert!(report.lines[1].contains("label: "));
    assert!(report.lines[1].contains("#[tested]"));
    assert!(report.lines[1].contains(" total: "));
    assert!(report.lines[1].contains("1"));
    assert!(report.lines[2].contains("#[trivial]"));
    assert_eq!(report.lines[3], "");
    assert!(!report.lines.iter().any(|l| l.contains("bad.rs")));
    assert!(!report.lines.iter().any(|l| l.contains("function labelled")));
    // the empty file still has its entry in the aggregate
    assert_eq!(report.outcome.counts.entries.len(), 2);
    assert!(report.outcome.counts.entries[0].count.is_empty());
}

#[test]
fn verbose_report_of_unannotated_tree_is_empty() {
    let files = vec![FileEntry { path: "bad.rs".to_string(), content: "fn naked() {}".to_string() }];
    let outcome = get_label_counts(&files);
    let lines = render_label_counts(&outcome.counts);
    assert!(lines.is_empty());
    assert_eq!(outcome.counts.entries.len(), 1);
}

#[test]
fn both_modes_gather_the_same_counts() {
    let files = sample_tree();
    let quiet = run_audit(&files, Mode::Quiet);
    let verbose = run_audit(&files, Mode::Verbose);
    assert_eq!(quiet.outcome.counts.entries.len(), verbose.outcome.counts.entries.len());
    for (a, b) in quiet
        .outcome
        .counts
        .entries
        .iter()
        .zip(verbose.outcome.counts.entries.iter())
    {
        assert_eq!(a.path, b.path);
        assert_eq!(a.count, b.count);
    }
    assert_eq!(quiet.outcome.warnings.len(), verbose.outcome.warnings.len());
    for (a, b) in quiet.outcome.warnings.iter().zip(verbose.outcome.warnings.iter()) {
        assert_eq!(a.line, b.line);
        assert_eq!(a.path, b.path);
    }
}
