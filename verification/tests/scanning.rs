use label_audit::labels::contains_valid_label;
use label_audit::labels::AnnotationKind;
use label_audit::labels::LabelCount;
use label_audit::scanner::get_label_count;
use label_audit::scanner::get_label_counts;
use label_audit::scanner::FileEntry;

#[test]
fn label_detection_increments_matching_kind() {
    let mut lc = LabelCount::new();
    assert!(lc.is_empty());
    assert!(contains_valid_label("#[tested]", &mut lc));
    assert_eq!(lc.tested, 1);
    assert_eq!(lc.parent_tested, 0);
    assert!(contains_valid_label("  #[parent_tested] // note", &mut lc));
    assert_eq!(lc.parent_tested, 1);
    assert!(contains_valid_label("#[untested]", &mut lc));
    assert!(contains_valid_label("#[trivial]", &mut lc));
    assert!(contains_valid_label("#[not_a_fn]", &mut lc));
    assert_eq!(lc.untested, 1);
    assert_eq!(lc.trivial, 1);
    assert_eq!(lc.not_a_fn, 1);
    assert!(!lc.is_empty());
}

#[test]
fn unannotated_line_changes_nothing() {
    let mut lc = LabelCount::new();
    assert!(!contains_valid_label("// plain comment", &mut lc));
    assert!(lc.is_empty());
}

#[test]
fn first_marker_in_priority_order_wins() {
    let mut lc = LabelCount::new();
    assert!(contains_valid_label("#[parent_tested] #[tested]", &mut lc));
    assert_eq!(lc.tested, 1);
    assert_eq!(lc.parent_tested, 0);
}

#[test]
fn count_getter_matches_fields() {
    let mut lc = LabelCount::new();
    assert!(contains_valid_label("#[trivial]", &mut lc));
    assert_eq!(lc.count(AnnotationKind::Trivial), 1);
    assert_eq!(lc.count(AnnotationKind::Tested), 0);
}

#[test]
fn function_on_first_line_is_warned() {
    let scan = get_label_count("fn foo() {}");
    assert_eq!(scan.warnings, vec![0]);
    assert!(scan.label_count.is_empty());
}

#[test]
fn labelled_function_is_counted_not_warned() {
    let scan = get_label_count("#[tested]\nfn foo() {}");
    assert!(scan.warnings.is_empty());
    assert_eq!(scan.label_count.tested, 1);
    assert_eq!(scan.label_count.untested, 0);
}

#[test]
fn scanning_stops_at_test_module_marker() {
    let scan = get_label_count("#[tested]\nfn foo() {}\nmod tests { cfg(test)\nfn bar() {}");
    assert_eq!(scan.label_count.tested, 1);
    assert_eq!(scan.label_count.parent_tested, 0);
    assert!(scan.warnings.is_empty());
}

#[test]
fn nothing_after_cutoff_is_ever_inspected() {
    let before = "#[untested]\nfn a() {}\n// cfg(test)";
    let with_tail = "#[untested]\nfn a() {}\n// cfg(test)\nfn b() {}\nfn c() {}\n#[tested]\nfn d() {}";
    let lhs = get_label_count(before);
    let rhs = get_label_count(with_tail);
    assert_eq!(lhs.label_count, rhs.label_count);
    assert_eq!(lhs.warnings, rhs.warnings);
    assert_eq!(rhs.label_count.untested, 1);
    assert_eq!(rhs.label_count.tested, 0);
}

#[test]
fn every_declaration_counts_or_warns_never_both() {
    let scan = get_label_count("#[trivial]\nfn a() {}\nfn b() {}\n#[not_a_fn]\nfn c() {}");
    // three declarations: one after #[trivial], one unlabeled, one after #[not_a_fn]
    assert_eq!(scan.label_count.trivial, 1);
    assert_eq!(scan.label_count.not_a_fn, 1);
    assert_eq!(scan.warnings, vec![2]);
    let total = scan.label_count.tested
        + scan.label_count.parent_tested
        + scan.label_count.untested
        + scan.label_count.trivial
        + scan.label_count.not_a_fn;
    assert_eq!(total as usize + scan.warnings.len(), 3);
}

#[test]
fn marker_line_with_carriage_return_still_matches() {
    let scan = get_label_count("#[tested]\r\nfn foo() {}");
    assert_eq!(scan.label_count.tested, 1);
    assert!(scan.warnings.is_empty());
}

#[test]
fn tree_scan_keeps_file_order_and_gathers_warnings() {
    let files = vec![
        FileEntry { path: "a.rs".to_string(), content: "fn one() {}\nfn two() {}".to_string() },
        FileEntry { path: "b.rs".to_string(), content: "#[tested]\nfn three() {}".to_string() },
    ];
    let outcome = get_label_counts(&files);
    assert_eq!(outcome.counts.entries.len(), 2);
    assert_eq!(outcome.counts.entries[0].path, "a.rs");
    assert_eq!(outcome.counts.entries[1].path, "b.rs");
    assert!(outcome.counts.entries[0].count.is_empty());
    assert_eq!(outcome.counts.entries[1].count.tested, 1);
    assert_eq!(outcome.warnings.len(), 2);
    assert_eq!(outcome.warnings[0].line, 0);
    assert_eq!(outcome.warnings[0].path, "a.rs");
    assert_eq!(outcome.warnings[1].line, 1);
    assert_eq!(outcome.warnings[1].path, "a.rs");
}

#[test]
fn scanning_twice_yields_identical_results() {
    let files = vec![
        FileEntry {
            path: "x.rs".to_string(),
            content: "#[tested]\nfn a() {}\nfn b() {}\ncfg(test)\nfn c() {}".to_string(),
        },
        FileEntry { path: "y.rs".to_string(), content: "".to_string() },
    ];
    let first = get_label_counts(&files);
    let second = get_label_counts(&files);
    assert_eq!(first.counts.entries.len(), second.counts.entries.len());
    for (a, b) in first.counts.entries.iter().zip(second.counts.entries.iter()) {
        assert_eq!(a.path, b.path);
        assert_eq!(a.count, b.count);
    }
    assert_eq!(first.warnings.len(), second.warnings.len());
    for (a, b) in first.warnings.iter().zip(second.warnings.iter()) {
        assert_eq!(a.line, b.line);
        assert_eq!(a.path, b.path);
    }
}
