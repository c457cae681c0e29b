//! Scanning one file's lines and aggregating the results over a tree.
//!
//! A file is split into lines; scanning stops before the first line that
//! holds the test-module marker.  Every remaining line that looks like a
//! function declaration either increments the tally of the annotation found
//! on the line directly above it, or yields an unlabeled-function warning.

use crate::labels::contains_valid_label;
use crate::labels::AnnotationKind;
use crate::labels::LabelCount;
use crate::labels::line_label;
use crate::text::contains_seq;
use crate::text::contains_substr;
use crate::text::split_lines;
use crate::text::split_lines_spec;
use vstd::prelude::*;

verus! {

/// The substring that marks a line as a function declaration.
pub open spec fn fn_marker() -> Seq<char> {
    "fn "@
}

/// The substring that marks the start of a file's test module.
pub open spec fn cutoff_marker() -> Seq<char> {
    "cfg(test)"@
}

pub open spec fn is_fn_line(line: Seq<char>) -> bool {
    contains_seq(line, fn_marker())
}

pub open spec fn has_cutoff_marker(line: Seq<char>) -> bool {
    contains_seq(line, cutoff_marker())
}

/// True when no line up to and including index `i` starts the test region:
/// line `i` is still inside the scanned part of the file.
pub open spec fn before_cutoff(lines: Seq<Seq<char>>, i: int) -> bool {
    forall|j: int| 0 <= j <= i ==> !has_cutoff_marker(#[trigger] lines[j])
}

/// Line `i` is a function declaration inside the scanned region with no
/// single recognized annotation on the line directly above it; the very
/// first line of a file can never be annotated.
pub open spec fn warned_at(lines: Seq<Seq<char>>, i: int) -> bool {
    &&& 0 <= i < lines.len()
    &&& before_cutoff(lines, i)
    &&& is_fn_line(lines[i])
    &&& (i == 0 || line_label(lines[i - 1]) is None)
}

/// Line `i` is a function declaration inside the scanned region whose
/// preceding line carries the annotation kind `k`.
pub open spec fn counted_at(lines: Seq<Seq<char>>, i: int, k: AnnotationKind) -> bool {
    &&& 1 <= i < lines.len()
    &&& before_cutoff(lines, i)
    &&& is_fn_line(lines[i])
    &&& line_label(lines[i - 1]) == Some(k)
}

pub open spec fn kind_count_upto(lines: Seq<Seq<char>>, k: AnnotationKind, n: int) -> nat
    decreases n,
{
    if n <= 0 {
        0
    } else {
        kind_count_upto(lines, k, n - 1) + (if counted_at(lines, n - 1, k) {
            1nat
        } else {
            0nat
        })
    }
}

/// How often annotation kind `k` is counted over the whole file.
pub open spec fn kind_count(lines: Seq<Seq<char>>, k: AnnotationKind) -> nat {
    kind_count_upto(lines, k, lines.len() as int)
}

pub open spec fn warnings_upto(lines: Seq<Seq<char>>, n: int) -> Seq<int>
    decreases n,
{
    if n <= 0 {
        Seq::empty()
    } else {
        warnings_upto(lines, n - 1) + (if warned_at(lines, n - 1) {
            seq![n - 1]
        } else {
            Seq::empty()
        })
    }
}

/// The indices of the unlabeled function declarations, in increasing order.
pub open spec fn warning_list(lines: Seq<Seq<char>>) -> Seq<int> {
    warnings_upto(lines, lines.len() as int)
}

/// The lines of one file, as the scan sees them.
pub open spec fn file_lines(content: Seq<char>) -> Seq<Seq<char>> {
    split_lines_spec(content)
}

/// The tally of kind `k` over one file's content.
pub open spec fn file_kind_count(content: Seq<char>, k: AnnotationKind) -> nat {
    kind_count(file_lines(content), k)
}

/// The unlabeled-function line indices of one file's content.
pub open spec fn file_warnings(content: Seq<char>) -> Seq<int> {
    warning_list(file_lines(content))
}

proof fn lemma_kind_count_upto_bound(lines: Seq<Seq<char>>, k: AnnotationKind, n: int)
    requires
        n >= 0,
    ensures
        kind_count_upto(lines, k, n) <= n,
    decreases n,
{
    if n > 0 {
        lemma_kind_count_upto_bound(lines, k, n - 1);
    }
}

/// An index is in the warning list exactly when the scan warns there.
pub proof fn lemma_warnings_upto_membership(lines: Seq<Seq<char>>, n: int, i: int)
    ensures
        warnings_upto(lines, n).contains(i) <==> (i < n && warned_at(lines, i)),
    decreases n,
{
    if n <= 0 {
    } else {
        lemma_warnings_upto_membership(lines, n - 1, i);
        let prev = warnings_upto(lines, n - 1);
        let cur = warnings_upto(lines, n);
        if warned_at(lines, n - 1) {
            assert(cur == prev + seq![n - 1]);
            if i < n && warned_at(lines, i) {
                if i < n - 1 {
                    let idx = choose|idx: int| 0 <= idx < prev.len() && prev[idx] == i;
                    assert(cur[idx] == i);
                } else {
                    assert(cur[prev.len() as int] == i);
                }
            }
            if cur.contains(i) {
                let idx = choose|idx: int| 0 <= idx < cur.len() && cur[idx] == i;
                if idx < prev.len() {
                    assert(prev[idx] == i);
                }
            }
        } else {
            assert(cur =~= prev);
        }
    }
}

proof fn lemma_scan_prefix_eq(lines: Seq<Seq<char>>, tail: Seq<Seq<char>>, k: AnnotationKind, n: int)
    requires
        0 <= n <= lines.len(),
    ensures
        kind_count_upto(lines + tail, k, n) == kind_count_upto(lines, k, n),
        warnings_upto(lines + tail, n) == warnings_upto(lines, n),
    decreases n,
{
    if n > 0 {
        lemma_scan_prefix_eq(lines, tail, k, n - 1);
        assert(before_cutoff(lines + tail, n - 1) == before_cutoff(lines, n - 1)) by {
            if before_cutoff(lines, n - 1) {
                assert forall|j: int| 0 <= j <= n - 1 implies !has_cutoff_marker(
                    #[trigger] (lines + tail)[j],
                ) by {
                    assert(!has_cutoff_marker(lines[j]));
                }
            }
            if before_cutoff(lines + tail, n - 1) {
                assert forall|j: int| 0 <= j <= n - 1 implies !has_cutoff_marker(
                    #[trigger] lines[j],
                ) by {
                    assert(!has_cutoff_marker((lines + tail)[j]));
                }
            }
        }
        assert((lines + tail)[n - 1] == lines[n - 1]);
        if n - 2 >= 0 {
            assert((lines + tail)[n - 2] == lines[n - 2]);
        }
        assert(counted_at(lines + tail, n - 1, k) == counted_at(lines, n - 1, k));
        assert(warned_at(lines + tail, n - 1) == warned_at(lines, n - 1));
    }
}

proof fn lemma_scan_frozen(lines: Seq<Seq<char>>, k: AnnotationKind, i: int, n: int)
    requires
        0 <= i <= n,
        exists|c: int| 0 <= c < i && has_cutoff_marker(#[trigger] lines[c]),
    ensures
        kind_count_upto(lines, k, n) == kind_count_upto(lines, k, i),
        warnings_upto(lines, n) == warnings_upto(lines, i),
    decreases n - i,
{
    if n > i {
        lemma_scan_frozen(lines, k, i, n - 1);
        let c = choose|c: int| 0 <= c < i && has_cutoff_marker(#[trigger] lines[c]);
        assert(!before_cutoff(lines, n - 1));
        assert(warnings_upto(lines, n) =~= warnings_upto(lines, n - 1));
    }
}

/// Cutoff correctness: once a file holds a test-module marker line, nothing
/// that stands after that line is ever classified or counted — appending any
/// lines whatever behind it leaves both the tally and the warnings as they
/// were.
pub proof fn lemma_cutoff_correct(lines: Seq<Seq<char>>, tail: Seq<Seq<char>>)
    requires
        exists|c: int| 0 <= c < lines.len() && has_cutoff_marker(#[trigger] lines[c]),
    ensures
        forall|k: AnnotationKind| kind_count(lines + tail, k) == kind_count(lines, k),
        warning_list(lines + tail) == warning_list(lines),
{
    let c = choose|c: int| 0 <= c < lines.len() && has_cutoff_marker(#[trigger] lines[c]);
    let whole = lines + tail;
    let n = lines.len() as int;
    assert(whole[c] == lines[c]);
    assert forall|k: AnnotationKind| kind_count(whole, k) == kind_count(lines, k) by {
        lemma_scan_frozen(whole, k, c + 1, whole.len() as int);
        lemma_scan_frozen(whole, k, c + 1, n);
        lemma_scan_frozen(lines, k, c + 1, n);
        lemma_scan_prefix_eq(lines, tail, k, c + 1);
    }
    lemma_scan_frozen(whole, AnnotationKind::Tested, c + 1, whole.len() as int);
    lemma_scan_frozen(whole, AnnotationKind::Tested, c + 1, n);
    lemma_scan_frozen(lines, AnnotationKind::Tested, c + 1, n);
    lemma_scan_prefix_eq(lines, tail, AnnotationKind::Tested, c + 1);
}

/// First-line edge case: a function declaration on the very first line of a
/// file, outside the test region, always yields a warning and never an
/// annotation count.
pub proof fn lemma_first_line_unlabeled(lines: Seq<Seq<char>>)
    requires
        lines.len() > 0,
        is_fn_line(lines[0]),
        !has_cutoff_marker(lines[0]),
    ensures
        warning_list(lines).contains(0),
        forall|k: AnnotationKind| !counted_at(lines, 0, k),
{
    assert(warned_at(lines, 0));
    lemma_warnings_upto_membership(lines, lines.len() as int, 0);
}

/// Exclusivity of counting and warning: every function-declaration line in
/// the scanned region other than the first line either increments the tally
/// of exactly the kind its preceding line carries, or stands in the warning
/// list — never both, never neither.
pub proof fn lemma_count_or_warn_exclusive(lines: Seq<Seq<char>>, i: int)
    requires
        0 < i < lines.len(),
        before_cutoff(lines, i),
        is_fn_line(lines[i]),
    ensures
        warning_list(lines).contains(i) <==> (line_label(lines[i - 1]) is None),
        (exists|k: AnnotationKind| counted_at(lines, i, k)) <==> (line_label(lines[i - 1])
            is Some),
        warning_list(lines).contains(i) <==> !(exists|k: AnnotationKind| counted_at(
            lines,
            i,
            k,
        )),
{
    lemma_warnings_upto_membership(lines, lines.len() as int, i);
    if line_label(lines[i - 1]) is Some {
        let k = line_label(lines[i - 1])->Some_0;
        assert(counted_at(lines, i, k));
    }
}

/// Idempotence: the scan is a function of the tree's contents alone, so two
/// scans of an unchanged tree yield the same tallies and the same warnings.
pub proof fn lemma_scan_repeatable(
    first: Seq<(Seq<char>, Seq<char>)>,
    second: Seq<(Seq<char>, Seq<char>)>,
)
    requires
        first == second,
    ensures
        tree_warnings(first) == tree_warnings(second),
        forall|i: int, k: AnnotationKind|
            0 <= i < first.len() ==> #[trigger] file_kind_count(first[i].1, k) == file_kind_count(
                second[i].1,
                k,
            ),
{
}

/// The file scan of one file: its annotation tally, and the line indices of
/// its unlabeled function declarations in increasing order.
pub struct FileScan {
    pub label_count: LabelCount,
    pub warnings: Vec<usize>,
}

/// Scans one file's content: splits it into lines, stops before the first
/// test-module marker, tallies annotations above function declarations, and
/// records the unlabeled declarations.
pub fn get_label_count(content: &str) -> (r: FileScan)
    ensures
        forall|k: AnnotationKind| r.label_count.spec_count(k) == file_kind_count(content@, k),
        r.warnings@.map_values(|u: usize| u as int) == file_warnings(content@),
{
    let lines = split_lines(content);
    let ghost ls = lines@.map_values(|l: &str| l@);
    let mut label_count = LabelCount::new();
    let mut warnings: Vec<usize> = Vec::new();
    let n = lines.len();
    let mut cut: bool = false;
    let mut i: usize = 0;
    proof {
        assert(warnings@.map_values(|u: usize| u as int) =~= warnings_upto(ls, 0));
    }
    while i < n
        invariant
            n == lines@.len(),
            ls == lines@.map_values(|l: &str| l@),
            ls.len() == n,
            i <= n,
            cut ==> exists|c: int| 0 <= c < i && has_cutoff_marker(#[trigger] ls[c]),
            !cut ==> forall|j: int| 0 <= j < i ==> !has_cutoff_marker(#[trigger] ls[j]),
            forall|k: AnnotationKind|
                #[trigger] label_count.spec_count(k) == kind_count_upto(ls, k, i as int),
            warnings@.map_values(|u: usize| u as int) == warnings_upto(ls, i as int),
        decreases n - i,
    {
        let ghost prev_warnings = warnings@;
        if !cut {
            let line = &lines[i];
            proof {
                assert(ls[i as int] == line@);
            }
            if contains_substr(line, "cfg(test)") {
                cut = true;
                proof {
                    assert(!before_cutoff(ls, i as int));
                }
            } else {
                proof {
                    assert(before_cutoff(ls, i as int));
                }
                if contains_substr(line, "fn ") {
                    let mut labelled = false;
                    if i > 0 {
                        let above = &lines[i - 1];
                        proof {
                            assert(ls[i as int - 1] == above@);
                            assert forall|k: AnnotationKind|
                                label_count.spec_count(k) < u64::MAX by {
                                lemma_kind_count_upto_bound(ls, k, i as int);
                            }
                        }
                        labelled = contains_valid_label(above, &mut label_count);
                    }
                    if !labelled {
                        warnings.push(i);
                        proof {
                            assert(warned_at(ls, i as int));
                            assert(warnings@.map_values(|u: usize| u as int)
                                =~= prev_warnings.map_values(|u: usize| u as int) + seq![
                                i as int,
                            ]);
                        }
                    } else {
                        proof {
                            assert(!warned_at(ls, i as int));
                        }
                    }
                } else {
                    proof {
                        assert(!warned_at(ls, i as int));
                        assert(forall|k: AnnotationKind| !counted_at(ls, i as int, k));
                    }
                }
            }
        } else {
            proof {
                let c = choose|c: int| 0 <= c < i && has_cutoff_marker(#[trigger] ls[c]);
                assert(!before_cutoff(ls, i as int));
                assert(!warned_at(ls, i as int));
                assert(forall|k: AnnotationKind| !counted_at(ls, i as int, k));
            }
        }
        i += 1;
    }
    FileScan { label_count, warnings }
}

/// One file handed to the audit: where it lives and what it holds.
pub struct FileEntry {
    pub path: String,
    pub content: String,
}

/// One unlabeled-function warning: the line index and the file it is in.
pub struct Warning {
    pub line: usize,
    pub path: String,
}

/// One scanned file's entry in the aggregate: its path and its tally.
pub struct FileCount {
    pub path: String,
    pub count: LabelCount,
}

/// The aggregate over a whole tree: one entry per scanned file, in the
/// order the files were handed in.
pub struct LabelCounts {
    pub entries: Vec<FileCount>,
}

/// Everything one scan of a tree yields: the per-file tallies and every
/// unlabeled-function warning, in scan order.
pub struct ScanOutcome {
    pub counts: LabelCounts,
    pub warnings: Vec<Warning>,
}

/// A tree of files as the specification sees it: (path, content) pairs.
pub open spec fn tree_view(files: Seq<FileEntry>) -> Seq<(Seq<char>, Seq<char>)> {
    files.map_values(|e: FileEntry| (e.path@, e.content@))
}

/// One file's warnings, paired with the file's path.
pub open spec fn file_warning_pairs(path: Seq<char>, content: Seq<char>) -> Seq<(int, Seq<char>)> {
    file_warnings(content).map_values(|w: int| (w, path))
}

/// Every warning of a tree, file by file in scan order.
pub open spec fn tree_warnings(files: Seq<(Seq<char>, Seq<char>)>) -> Seq<(int, Seq<char>)>
    decreases files.len(),
{
    if files.len() == 0 {
        Seq::empty()
    } else {
        tree_warnings(files.drop_last()) + file_warning_pairs(
            files.last().0,
            files.last().1,
        )
    }
}

/// The gathered warnings as the specification sees them: (line, path) pairs.
pub open spec fn warnings_view(ws: Seq<Warning>) -> Seq<(int, Seq<char>)> {
    ws.map_values(|w: Warning| (w.line as int, w.path@))
}

/// The aggregate's entries as the specification sees them.
pub open spec fn entries_view(es: Seq<FileCount>) -> Seq<(Seq<char>, LabelCount)> {
    es.map_values(|e: FileCount| (e.path@, e.count))
}

/// What one scan of a tree must yield: one entry per file in order, each
/// tally equal to the file's own, and exactly the tree's warnings.  The
/// invocation mode has no part in it.
pub open spec fn scan_outcome_ok(files: Seq<FileEntry>, r: ScanOutcome) -> bool {
    &&& r.counts.entries@.len() == files.len()
    &&& forall|i: int|
        0 <= i < files.len() ==> (#[trigger] r.counts.entries@[i]).path@ == files[i].path@
    &&& forall|i: int, k: AnnotationKind|
        0 <= i < files.len() ==> (#[trigger] r.counts.entries@[i].count.spec_count(k))
            == file_kind_count(files[i].content@, k)
    &&& warnings_view(r.warnings@) == tree_warnings(tree_view(files))
}

/// Scans every file of a tree and gathers one tally per file, plus every
/// unlabeled-function warning.  The tallies depend on the file contents
/// alone; each file is entered exactly once, in the order handed in.
pub fn get_label_counts(files: &Vec<FileEntry>) -> (r: ScanOutcome)
    ensures
        scan_outcome_ok(files@, r),
{
    let ghost tv = tree_view(files@);
    let mut entries: Vec<FileCount> = Vec::new();
    let mut warnings: Vec<Warning> = Vec::new();
    let n = files.len();
    let mut idx: usize = 0;
    proof {
        assert(warnings@.map_values(|w: Warning| (w.line as int, w.path@)) =~= tree_warnings(
            tv.take(0),
        ));
    }
    while idx < n
        invariant
            n == files@.len(),
            tv == tree_view(files@),
            tv.len() == n,
            idx <= n,
            entries@.len() == idx,
            forall|i: int| 0 <= i < idx ==> (#[trigger] entries@[i]).path@ == files@[i].path@,
            forall|i: int, k: AnnotationKind|
                0 <= i < idx ==> (#[trigger] entries@[i].count.spec_count(k)) == file_kind_count(
                    files@[i].content@,
                    k,
                ),
            warnings@.map_values(|w: Warning| (w.line as int, w.path@)) == tree_warnings(
                tv.take(idx as int),
            ),
        decreases n - idx,
    {
        let entry = &files[idx];
        let scan = get_label_count(entry.content.as_str());
        entries.push(FileCount { path: entry.path.clone(), count: scan.label_count });
        let m = scan.warnings.len();
        let mut j: usize = 0;
        let ghost base = warnings@.map_values(|w: Warning| (w.line as int, w.path@));
        while j < m
            invariant
                m == scan.warnings@.len(),
                j <= m,
                scan.warnings@.map_values(|u: usize| u as int) == file_warnings(
                    files@[idx as int].content@,
                ),
                idx < n == files@.len(),
                warnings@.map_values(|w: Warning| (w.line as int, w.path@)) == base
                    + file_warning_pairs(
                    files@[idx as int].path@,
                    files@[idx as int].content@,
                ).take(j as int),
            decreases m - j,
        {
            let ghost prev = warnings@;
            let w = scan.warnings[j];
            warnings.push(Warning { line: w, path: files[idx].path.clone() });
            proof {
                let pairs = file_warning_pairs(
                    files@[idx as int].path@,
                    files@[idx as int].content@,
                );
                assert(pairs[j as int] == (
                    file_warnings(files@[idx as int].content@)[j as int],
                    files@[idx as int].path@,
                ));
                assert(file_warnings(files@[idx as int].content@)[j as int] == scan.warnings@[
                    j as int
                ] as int);
                assert(warnings@.map_values(|w: Warning| (w.line as int, w.path@)) =~= prev
                    .map_values(|w: Warning| (w.line as int, w.path@)) + seq![
                    (w as int, files@[idx as int].path@),
                ]);
                assert(pairs.take(j as int + 1) =~= pairs.take(j as int) + seq![
                    pairs[j as int],
                ]);
            }
            j += 1;
        }
        proof {
            let pairs = file_warning_pairs(files@[idx as int].path@, files@[idx as int].content@);
            assert(pairs.take(m as int) =~= pairs);
            assert(tv.take(idx as int + 1).drop_last() =~= tv.take(idx as int));
            assert(tv.take(idx as int + 1).last() == tv[idx as int]);
            assert(tv[idx as int] == (files@[idx as int].path@, files@[idx as int].content@));
        }
        idx += 1;
    }
    proof {
        assert(tv.take(n as int) =~= tv);
    }
    ScanOutcome { counts: LabelCounts { entries }, warnings }
}

} // verus!
