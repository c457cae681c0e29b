//! Turning a scan's outcome into report lines.
//!
//! The audit reports in one of two modes.  Quiet mode prints one line per
//! unlabeled function and closes with a banner saying whether every function
//! was labelled.  Verbose mode prints, for every file with at least one
//! observed annotation, the file's path and one line per observed kind with
//! its tally; files with no annotation at all are omitted.
//!
//! The lines carry terminal colouring, which depends on the environment, so
//! a rendered line is pinned down only up to the colouring: each line is
//! shown to hold its text verbatim (for text free of escape characters),
//! while the exact row structure of the report is pinned completely.

use crate::color::paint_blue;
use crate::color::paint_bold;
use crate::color::paint_bright_green;
use crate::color::paint_green;
use crate::color::paint_purple;
use crate::color::paint_red;
use crate::color::paint_white;
use crate::color::paint_yellow;
use crate::labels::lemma_marker_plain;
use crate::labels::line_label;
use crate::labels::marker_str;
use crate::labels::marker_text;
use crate::labels::AnnotationKind;
use crate::labels::LabelCount;
use crate::scanner::entries_view;
use crate::scanner::get_label_counts;
use crate::scanner::scan_outcome_ok;
use crate::scanner::warnings_view;
use crate::scanner::FileEntry;
use crate::scanner::LabelCounts;
use crate::scanner::ScanOutcome;
use crate::text::contains_seq;
use crate::text::contains_substr;
use crate::text::dec_rep;
use crate::text::has_escape;
use crate::text::lemma_contains_concat_left;
use crate::text::lemma_contains_concat_right;
use crate::text::lemma_contains_self;
use crate::text::lemma_dec_rep_plain;
use crate::text::u64_to_string;
use vstd::prelude::*;

verus! {

/// How the audit was invoked: quiet mode warns and closes with a banner;
/// verbose mode prints the per-file tallies instead.
#[derive(Clone, Copy, Debug, PartialEq, Eq, Structural)]
pub enum Mode {
    Quiet,
    Verbose,
}

/// One row of the report, before colouring: the exact shape of the output.
pub enum ReportRow {
    FileHeader { path: Seq<char> },
    LabelRow { kind: AnnotationKind, count: nat },
    WarningRow { line: int, path: Seq<char> },
    Banner { all_labelled: bool },
    Blank,
}

pub open spec fn success_text() -> Seq<char> {
    "All function labelled! \u{1f680}\u{1f680}\u{1f680}"@
}

pub open spec fn failure_text() -> Seq<char> {
    "Not all function labelled! \u{1f61f}\u{1f61f}\u{1f61f}"@
}

/// What a rendered line promises about its row.  Colouring may wrap text in
/// escape codes, so a line holds its text verbatim; text that itself holds
/// an escape character may be rewritten by the colouring and is only bounded
/// in length.
pub open spec fn line_matches_row(text: Seq<char>, row: ReportRow) -> bool {
    match row {
        ReportRow::FileHeader { path } => {
            &&& text.len() >= path.len()
            &&& !has_escape(path) ==> contains_seq(text, path)
        },
        ReportRow::LabelRow { kind, count } => {
            &&& contains_seq(text, "label: "@)
            &&& contains_seq(text, marker_text(kind))
            &&& contains_seq(text, " total: "@)
            &&& contains_seq(text, dec_rep(count))
        },
        ReportRow::WarningRow { line, path } => {
            &&& contains_seq(text, "Unlabeled function on line "@)
            &&& line >= 0 ==> contains_seq(text, dec_rep(line as nat))
            &&& contains_seq(text, " in file: "@)
            &&& !has_escape(path) ==> contains_seq(text, path)
        },
        ReportRow::Banner { all_labelled } => contains_seq(
            text,
            if all_labelled {
                success_text()
            } else {
                failure_text()
            },
        ),
        ReportRow::Blank => text.len() == 0,
    }
}

/// Picks the colour of a label for the report: each recognized marker has
/// its own colour, and an unrecognized label is rendered as nothing (at most
/// the colouring's own escape codes).
pub fn format_label(label: &String) -> (r: String)
    ensures
        match line_label(label@) {
            Some(k) => contains_seq(r@, marker_text(k)),
            None => r@.len() == 0 || has_escape(r@),
        },
{
    proof {
        reveal_strlit("");
    }
    proof {
        lemma_marker_plain(AnnotationKind::Tested);
        lemma_marker_plain(AnnotationKind::ParentTested);
        lemma_marker_plain(AnnotationKind::Untested);
        lemma_marker_plain(AnnotationKind::Trivial);
        lemma_marker_plain(AnnotationKind::NotAFn);
    }
    if contains_substr(label.as_str(), marker_str(AnnotationKind::Tested)) {
        paint_bright_green(marker_str(AnnotationKind::Tested))
    } else if contains_substr(label.as_str(), marker_str(AnnotationKind::ParentTested)) {
        paint_green(marker_str(AnnotationKind::ParentTested))
    } else if contains_substr(label.as_str(), marker_str(AnnotationKind::Untested)) {
        paint_red(marker_str(AnnotationKind::Untested))
    } else if contains_substr(label.as_str(), marker_str(AnnotationKind::Trivial)) {
        paint_blue(marker_str(AnnotationKind::Trivial))
    } else if contains_substr(label.as_str(), marker_str(AnnotationKind::NotAFn)) {
        paint_purple(marker_str(AnnotationKind::NotAFn))
    } else {
        paint_white("")
    }
}

/// Each marker names its own kind: markers are pairwise non-containing, so
/// classifying a marker's own text finds exactly that kind.
#[verifier::rlimit(60)]
pub proof fn lemma_marker_label(k: AnnotationKind)
    ensures
        line_label(marker_text(k)) == Some(k),
{
    lemma_contains_self(marker_text(k));
    match k {
        AnnotationKind::Tested => {
        },
        AnnotationKind::ParentTested => {
            reveal_strlit("#[tested]");
            reveal_strlit("#[parent_tested]");
            lemma_marker_free(marker_text(k), marker_text(AnnotationKind::Tested), 2);
        },
        AnnotationKind::Untested => {
            reveal_strlit("#[tested]");
            reveal_strlit("#[parent_tested]");
            reveal_strlit("#[untested]");
            lemma_marker_free(marker_text(k), marker_text(AnnotationKind::Tested), 2);
            lemma_marker_free(marker_text(k), marker_text(AnnotationKind::ParentTested), 2);
        },
        AnnotationKind::Trivial => {
            reveal_strlit("#[tested]");
            reveal_strlit("#[parent_tested]");
            reveal_strlit("#[untested]");
            reveal_strlit("#[trivial]");
            lemma_marker_free(marker_text(k), marker_text(AnnotationKind::Tested), 3);
            lemma_marker_free(marker_text(k), marker_text(AnnotationKind::ParentTested), 2);
            lemma_marker_free(marker_text(k), marker_text(AnnotationKind::Untested), 2);
        },
        AnnotationKind::NotAFn => {
            reveal_strlit("#[tested]");
            reveal_strlit("#[parent_tested]");
            reveal_strlit("#[untested]");
            reveal_strlit("#[trivial]");
            reveal_strlit("#[not_a_fn]");
            lemma_marker_free(marker_text(k), marker_text(AnnotationKind::Tested), 2);
            lemma_marker_free(marker_text(k), marker_text(AnnotationKind::ParentTested), 2);
            lemma_marker_free(marker_text(k), marker_text(AnnotationKind::Untested), 2);
            lemma_marker_free(marker_text(k), marker_text(AnnotationKind::Trivial), 2);
        },
    }
}

/// A marker starts with `#[` and holds `#` nowhere else, so another marker
/// could only occur as a prefix; the two differ at position `p`, so neither
/// contains the other.
proof fn lemma_marker_free(hay: Seq<char>, needle: Seq<char>, p: int)
    requires
        hay[0] == '#',
        needle[0] == '#',
        forall|j: int| 1 <= j < hay.len() ==> hay[j] != '#',
        0 <= p < needle.len(),
        p < hay.len(),
        hay[p] != needle[p],
    ensures
        !contains_seq(hay, needle),
{
    if contains_seq(hay, needle) {
        let i = choose|i: int|
            0 <= i && i + needle.len() <= hay.len() && #[trigger] hay.subrange(
                i,
                i + needle.len() as int,
            ) == needle;
        assert(hay.subrange(i, i + needle.len() as int)[0] == hay[i]);
        assert(hay[i] == '#');
        assert(i == 0);
        assert(hay.subrange(i, i + needle.len() as int)[p] == hay[p]);
    }
}

/// One verbose-report line for an annotation kind and its tally.
fn label_row_line(k: AnnotationKind, c: u64) -> (r: String)
    ensures
        line_matches_row(r@, ReportRow::LabelRow { kind: k, count: c as nat }),
{
    let mut s = String::from_str("label: ");
    let marker = String::from_str(marker_str(k));
    let painted = format_label(&marker);
    proof {
        lemma_marker_label(k);
        lemma_contains_self("label: "@);
        lemma_contains_concat_right(s@, painted@, marker_text(k));
        lemma_contains_concat_left(s@, painted@, "label: "@);
    }
    s.append(painted.as_str());
    proof {
        lemma_contains_self(" total: "@);
        lemma_contains_concat_left(s@, " total: "@, "label: "@);
        lemma_contains_concat_left(s@, " total: "@, marker_text(k));
        lemma_contains_concat_right(s@, " total: "@, " total: "@);
    }
    s.append(" total: ");
    let num = u64_to_string(c);
    proof {
        lemma_dec_rep_plain(c as nat);
    }
    let painted_num = paint_red(num.as_str());
    proof {
        lemma_contains_concat_left(s@, painted_num@, "label: "@);
        lemma_contains_concat_left(s@, painted_num@, marker_text(k));
        lemma_contains_concat_left(s@, painted_num@, " total: "@);
        lemma_contains_concat_right(s@, painted_num@, dec_rep(c as nat));
    }
    s.append(painted_num.as_str());
    s
}

/// One quiet-mode line for an unlabeled function declaration.
fn warning_line(line_idx: usize, path: &String) -> (r: String)
    ensures
        line_matches_row(r@, ReportRow::WarningRow { line: line_idx as int, path: path@ }),
{
    let mut s = String::from_str("Unlabeled function on line ");
    let num = u64_to_string(line_idx as u64);
    proof {
        lemma_dec_rep_plain(line_idx as nat);
    }
    let painted_num = paint_red(num.as_str());
    proof {
        lemma_contains_self("Unlabeled function on line "@);
        lemma_contains_concat_left(s@, painted_num@, "Unlabeled function on line "@);
        lemma_contains_concat_right(s@, painted_num@, dec_rep(line_idx as nat));
    }
    s.append(painted_num.as_str());
    proof {
        lemma_contains_self(" in file: "@);
        lemma_contains_concat_left(s@, " in file: "@, "Unlabeled function on line "@);
        lemma_contains_concat_left(s@, " in file: "@, dec_rep(line_idx as nat));
        lemma_contains_concat_right(s@, " in file: "@, " in file: "@);
    }
    s.append(" in file: ");
    let painted_path = paint_bold(path.as_str());
    proof {
        lemma_contains_concat_left(s@, painted_path@, "Unlabeled function on line "@);
        lemma_contains_concat_left(s@, painted_path@, dec_rep(line_idx as nat));
        lemma_contains_concat_left(s@, painted_path@, " in file: "@);
        if !has_escape(path@) {
            lemma_contains_concat_right(s@, painted_path@, path@);
        }
    }
    s.append(painted_path.as_str());
    s
}

/// The rows a label tally contributes to one kind's line, nothing for a
/// kind never observed.
pub open spec fn maybe_label_row(c: LabelCount, k: AnnotationKind) -> Seq<ReportRow> {
    if c.spec_count(k) > 0 {
        seq![ReportRow::LabelRow { kind: k, count: c.spec_count(k) }]
    } else {
        Seq::empty()
    }
}

/// The label lines of one file, one per observed kind, in a fixed order.
pub open spec fn label_rows(c: LabelCount) -> Seq<ReportRow> {
    maybe_label_row(c, AnnotationKind::Tested) + maybe_label_row(c, AnnotationKind::ParentTested)
        + maybe_label_row(c, AnnotationKind::Untested) + maybe_label_row(
        c,
        AnnotationKind::Trivial,
    ) + maybe_label_row(c, AnnotationKind::NotAFn)
}

/// The verbose-report block of one file: its path, its observed kinds, and
/// a blank separator — or nothing at all when no annotation was observed.
pub open spec fn entry_rows(path: Seq<char>, c: LabelCount) -> Seq<ReportRow> {
    if c.spec_is_empty() {
        Seq::empty()
    } else {
        seq![ReportRow::FileHeader { path }] + label_rows(c) + seq![ReportRow::Blank]
    }
}

/// The whole verbose report: every file's block, in aggregate order.
pub open spec fn verbose_rows(entries: Seq<(Seq<char>, LabelCount)>) -> Seq<ReportRow>
    decreases entries.len(),
{
    if entries.len() == 0 {
        Seq::empty()
    } else {
        verbose_rows(entries.drop_last()) + entry_rows(entries.last().0, entries.last().1)
    }
}

/// The whole quiet report: one line per warning, then the banner.
pub open spec fn quiet_rows(warns: Seq<(int, Seq<char>)>) -> Seq<ReportRow> {
    warns.map_values(|w: (int, Seq<char>)| ReportRow::WarningRow { line: w.0, path: w.1 }) + seq![
        ReportRow::Banner { all_labelled: warns.len() == 0 },
    ]
}

/// The rows the audit prints, by invocation mode.
pub open spec fn report_rows(
    entries: Seq<(Seq<char>, LabelCount)>,
    warns: Seq<(int, Seq<char>)>,
    mode: Mode,
) -> Seq<ReportRow> {
    match mode {
        Mode::Quiet => quiet_rows(warns),
        Mode::Verbose => verbose_rows(entries),
    }
}

/// The rendered lines follow the rows one for one.
pub open spec fn lines_match_rows(lines: Seq<String>, rows: Seq<ReportRow>) -> bool {
    &&& lines.len() == rows.len()
    &&& forall|i: int| 0 <= i < rows.len() ==> line_matches_row((#[trigger] lines[i])@, rows[i])
}

proof fn lemma_match_concat(a: Seq<String>, b: Seq<String>, ra: Seq<ReportRow>, rb: Seq<ReportRow>)
    requires
        lines_match_rows(a, ra),
        lines_match_rows(b, rb),
    ensures
        lines_match_rows(a + b, ra + rb),
{
    assert forall|i: int| 0 <= i < (ra + rb).len() implies line_matches_row(
        (#[trigger] (a + b)[i])@,
        (ra + rb)[i],
    ) by {
        if i < ra.len() {
            assert((a + b)[i] == a[i]);
            assert((ra + rb)[i] == ra[i]);
        } else {
            assert((a + b)[i] == b[i - ra.len()]);
            assert((ra + rb)[i] == rb[i - ra.len()]);
        }
    }
}

proof fn lemma_match_single(x: String, row: ReportRow)
    requires
        line_matches_row(x@, row),
    ensures
        lines_match_rows(seq![x], seq![row]),
{
    assert(seq![x][0] == x);
    assert(seq![row][0] == row);
}

/// Appends the one report line of kind `k`, or nothing when the kind was
/// never observed.
fn push_kind_row(ls: &mut Vec<String>, c: &LabelCount, k: AnnotationKind, rows: Ghost<Seq<ReportRow>>)
    requires
        lines_match_rows(old(ls)@, rows@),
    ensures
        lines_match_rows(final(ls)@, rows@ + maybe_label_row(*c, k)),
{
    let cnt = c.count(k);
    if cnt > 0 {
        let ghost before = ls@;
        let line = label_row_line(k, cnt);
        proof {
            lemma_match_single(line, ReportRow::LabelRow { kind: k, count: cnt as nat });
            lemma_match_concat(
                before,
                seq![line],
                rows@,
                seq![ReportRow::LabelRow { kind: k, count: cnt as nat }],
            );
        }
        ls.push(line);
        proof {
            assert(ls@ =~= before + seq![line]);
            assert(maybe_label_row(*c, k) =~= seq![
                ReportRow::LabelRow { kind: k, count: cnt as nat },
            ]);
        }
    } else {
        proof {
            assert(rows@ + maybe_label_row(*c, k) =~= rows@);
        }
    }
}

/// Renders one file's verbose-report block.
fn entry_lines(path: &String, c: &LabelCount) -> (ls: Vec<String>)
    ensures
        lines_match_rows(ls@, entry_rows(path@, *c)),
{
    let mut ls: Vec<String> = Vec::new();
    if c.is_empty() {
        proof {
            assert(lines_match_rows(ls@, entry_rows(path@, *c)));
        }
        return ls;
    }
    let header = paint_yellow(path.as_str());
    proof {
        lemma_match_single(header, ReportRow::FileHeader { path: path@ });
        assert(Seq::<String>::empty() + seq![header] =~= seq![header]);
        assert(Seq::<ReportRow>::empty() + seq![ReportRow::FileHeader { path: path@ }] =~= seq![
            ReportRow::FileHeader { path: path@ },
        ]);
    }
    ls.push(header);
    let ghost r0 = seq![ReportRow::FileHeader { path: path@ }];
    push_kind_row(&mut ls, c, AnnotationKind::Tested, Ghost(r0));
    let ghost r1 = r0 + maybe_label_row(*c, AnnotationKind::Tested);
    push_kind_row(&mut ls, c, AnnotationKind::ParentTested, Ghost(r1));
    let ghost r2 = r1 + maybe_label_row(*c, AnnotationKind::ParentTested);
    push_kind_row(&mut ls, c, AnnotationKind::Untested, Ghost(r2));
    let ghost r3 = r2 + maybe_label_row(*c, AnnotationKind::Untested);
    push_kind_row(&mut ls, c, AnnotationKind::Trivial, Ghost(r3));
    let ghost r4 = r3 + maybe_label_row(*c, AnnotationKind::Trivial);
    push_kind_row(&mut ls, c, AnnotationKind::NotAFn, Ghost(r4));
    let ghost r5 = r4 + maybe_label_row(*c, AnnotationKind::NotAFn);
    let ghost before_blank = ls@;
    let blank = String::new();
    proof {
        lemma_match_single(blank, ReportRow::Blank);
        lemma_match_concat(before_blank, seq![blank], r5, seq![ReportRow::Blank]);
    }
    ls.push(blank);
    proof {
        assert(ls@ =~= before_blank + seq![blank]);
        assert(r5 + seq![ReportRow::Blank] =~= entry_rows(path@, *c));
    }
    ls
}

/// Renders the verbose report: for every file with at least one observed
/// annotation, the file's path, one line per observed kind with its tally,
/// and a blank separator; files with an empty tally are omitted.
pub fn render_label_counts(label_counts: &LabelCounts) -> (lines: Vec<String>)
    ensures
        lines_match_rows(lines@, verbose_rows(entries_view(label_counts.entries@))),
{
    let ghost ev = entries_view(label_counts.entries@);
    let mut lines: Vec<String> = Vec::new();
    let n = label_counts.entries.len();
    let mut idx: usize = 0;
    proof {
        assert(verbose_rows(ev.take(0)) =~= Seq::<ReportRow>::empty());
    }
    while idx < n
        invariant
            n == label_counts.entries@.len(),
            ev == entries_view(label_counts.entries@),
            ev.len() == n,
            idx <= n,
            lines_match_rows(lines@, verbose_rows(ev.take(idx as int))),
        decreases n - idx,
    {
        let e = &label_counts.entries[idx];
        let mut els = entry_lines(&e.path, &e.count);
        let ghost before = lines@;
        let ghost els_view = els@;
        proof {
            assert(ev[idx as int] == (e.path@, e.count));
            lemma_match_concat(
                before,
                els_view,
                verbose_rows(ev.take(idx as int)),
                entry_rows(e.path@, e.count),
            );
        }
        lines.append(&mut els);
        proof {
            assert(ev.take(idx as int + 1).drop_last() =~= ev.take(idx as int));
            assert(ev.take(idx as int + 1).last() == ev[idx as int]);
            assert(verbose_rows(ev.take(idx as int + 1)) == verbose_rows(ev.take(idx as int))
                + entry_rows(e.path@, e.count));
        }
        idx += 1;
    }
    proof {
        assert(ev.take(n as int) =~= ev);
    }
    lines
}

/// Renders the report for the chosen mode: quiet mode prints every warning
/// and closes with the banner; verbose mode prints the per-file tallies.
pub fn report_lines(outcome: &ScanOutcome, mode: Mode) -> (lines: Vec<String>)
    ensures
        lines_match_rows(
            lines@,
            report_rows(
                entries_view(outcome.counts.entries@),
                warnings_view(outcome.warnings@),
                mode,
            ),
        ),
{
    match mode {
        Mode::Verbose => render_label_counts(&outcome.counts),
        Mode::Quiet => {
            let ghost wv = warnings_view(outcome.warnings@);
            let ghost wrows = wv.map_values(
                |w: (int, Seq<char>)| ReportRow::WarningRow { line: w.0, path: w.1 },
            );
            let mut lines: Vec<String> = Vec::new();
            let n = outcome.warnings.len();
            let mut j: usize = 0;
            proof {
                assert(lines_match_rows(lines@, wrows.take(0)));
            }
            while j < n
                invariant
                    n == outcome.warnings@.len(),
                    wv == warnings_view(outcome.warnings@),
                    wrows == wv.map_values(
                        |w: (int, Seq<char>)| ReportRow::WarningRow { line: w.0, path: w.1 },
                    ),
                    wrows.len() == n,
                    j <= n,
                    lines_match_rows(lines@, wrows.take(j as int)),
                decreases n - j,
            {
                let w = &outcome.warnings[j];
                let line = warning_line(w.line, &w.path);
                let ghost before = lines@;
                proof {
                    assert(wv[j as int] == (w.line as int, w.path@));
                    assert(wrows[j as int] == ReportRow::WarningRow {
                        line: w.line as int,
                        path: w.path@,
                    });
                    lemma_match_single(line, wrows[j as int]);
                    lemma_match_concat(before, seq![line], wrows.take(j as int), seq![
                        wrows[j as int],
                    ]);
                }
                lines.push(line);
                proof {
                    assert(lines@ =~= before + seq![line]);
                    assert(wrows.take(j as int + 1) =~= wrows.take(j as int) + seq![
                        wrows[j as int],
                    ]);
                }
                j += 1;
            }
            let ghost before_banner = lines@;
            let banner = banner_line(n == 0);
            proof {
                assert(wrows.take(n as int) =~= wrows);
                lemma_match_single(banner, ReportRow::Banner { all_labelled: wv.len() == 0 });
                lemma_match_concat(before_banner, seq![banner], wrows, seq![
                    ReportRow::Banner { all_labelled: wv.len() == 0 },
                ]);
            }
            lines.push(banner);
            proof {
                assert(lines@ =~= before_banner + seq![banner]);
            }
            lines
        },
    }
}

/// The whole audit on an already-read tree: the per-file tallies, the
/// warnings, and the rendered report lines for the chosen mode.  The mode
/// has no part in the outcome — it decides only what is rendered.
pub fn run_audit(files: &Vec<FileEntry>, mode: Mode) -> (r: AuditReport)
    ensures
        scan_outcome_ok(files@, r.outcome),
        lines_match_rows(
            r.lines@,
            report_rows(
                entries_view(r.outcome.counts.entries@),
                warnings_view(r.outcome.warnings@),
                mode,
            ),
        ),
{
    let outcome = get_label_counts(files);
    let lines = report_lines(&outcome, mode);
    AuditReport { outcome, lines }
}

/// A finished audit: the gathered outcome and the lines to print.
pub struct AuditReport {
    pub outcome: ScanOutcome,
    pub lines: Vec<String>,
}

/// Mode independence: any outcome the audit may return when invoked in quiet
/// mode and any it may return in verbose mode carry the same per-file paths,
/// the same tallies, and the same warnings; the mode decides only which
/// report lines are rendered from them.
pub proof fn lemma_mode_independent(
    files: Seq<FileEntry>,
    quiet_run: ScanOutcome,
    verbose_run: ScanOutcome,
)
    requires
        scan_outcome_ok(files, quiet_run),
        scan_outcome_ok(files, verbose_run),
    ensures
        quiet_run.counts.entries@.len() == verbose_run.counts.entries@.len(),
        forall|i: int|
            0 <= i < files.len() ==> (#[trigger] quiet_run.counts.entries@[i]).path@
                == verbose_run.counts.entries@[i].path@,
        forall|i: int, k: AnnotationKind|
            0 <= i < files.len() ==> (#[trigger] quiet_run.counts.entries@[i].count.spec_count(k))
                == verbose_run.counts.entries@[i].count.spec_count(k),
        warnings_view(quiet_run.warnings@) == warnings_view(verbose_run.warnings@),
{
}

/// Omission: a file with an empty tally contributes nothing to the verbose
/// report — removing its entry from the aggregate leaves the rendered rows
/// unchanged.
pub proof fn lemma_empty_count_omitted(entries: Seq<(Seq<char>, LabelCount)>, i: int)
    requires
        0 <= i < entries.len(),
        entries[i].1.spec_is_empty(),
    ensures
        verbose_rows(entries.remove(i)) == verbose_rows(entries),
    decreases entries.len(),
{
    let n = entries.len() as int;
    if i == n - 1 {
        assert(entries.remove(i) =~= entries.drop_last());
        assert(entry_rows(entries.last().0, entries.last().1) =~= Seq::<ReportRow>::empty());
        assert(verbose_rows(entries.drop_last()) + Seq::<ReportRow>::empty() =~= verbose_rows(
            entries.drop_last(),
        ));
    } else {
        assert(entries.drop_last()[i] == entries[i]);
        lemma_empty_count_omitted(entries.drop_last(), i);
        assert(entries.remove(i).drop_last() =~= entries.drop_last().remove(i));
        assert(entries.remove(i).last() == entries.last());
        assert(entries.remove(i).len() != 0);
    }
}

/// The closing banner of quiet mode: celebration when every function
/// declaration carried a label, a warning banner otherwise.
fn banner_line(all_labelled: bool) -> (r: String)
    ensures
        line_matches_row(r@, ReportRow::Banner { all_labelled }),
{
    if all_labelled {
        proof {
            reveal_strlit("All function labelled! \u{1f680}\u{1f680}\u{1f680}");
        }
        paint_bold("All function labelled! \u{1f680}\u{1f680}\u{1f680}")
    } else {
        proof {
            reveal_strlit("Not all function labelled! \u{1f61f}\u{1f61f}\u{1f61f}");
        }
        paint_bold("Not all function labelled! \u{1f61f}\u{1f61f}\u{1f61f}")
    }
}

} // verus!
