//! The recognized annotation markers, the per-line classifier, and the
//! per-file tally of annotation usage.

use crate::text::contains_seq;
use crate::text::contains_substr;
use crate::text::has_escape;
use vstd::prelude::*;

verus! {

/// The annotation kinds a function declaration may carry on the line above
/// it.  Each kind is recognized by one fixed literal marker.
#[derive(Clone, Copy, Debug, PartialEq, Eq, Structural)]
pub enum AnnotationKind {
    Tested,
    ParentTested,
    Untested,
    Trivial,
    NotAFn,
}

/// The literal marker that announces each annotation kind.
pub open spec fn marker_text(k: AnnotationKind) -> Seq<char> {
    match k {
        AnnotationKind::Tested => "#[tested]"@,
        AnnotationKind::ParentTested => "#[parent_tested]"@,
        AnnotationKind::Untested => "#[untested]"@,
        AnnotationKind::Trivial => "#[trivial]"@,
        AnnotationKind::NotAFn => "#[not_a_fn]"@,
    }
}

/// The marker of a kind, as text.
pub fn marker_str(k: AnnotationKind) -> (r: &'static str)
    ensures
        r@ == marker_text(k),
{
    match k {
        AnnotationKind::Tested => "#[tested]",
        AnnotationKind::ParentTested => "#[parent_tested]",
        AnnotationKind::Untested => "#[untested]",
        AnnotationKind::Trivial => "#[trivial]",
        AnnotationKind::NotAFn => "#[not_a_fn]",
    }
}

/// No marker holds the terminal escape character, so the colouring layer
/// keeps each one intact.
pub proof fn lemma_marker_plain(k: AnnotationKind)
    ensures
        !has_escape(marker_text(k)),
{
    reveal_strlit("#[tested]");
    reveal_strlit("#[parent_tested]");
    reveal_strlit("#[untested]");
    reveal_strlit("#[trivial]");
    reveal_strlit("#[not_a_fn]");
}

/// The annotation a line carries: markers are tried in a fixed priority
/// order, and the first one contained in the line decides; a line matching
/// none is unannotated.
pub open spec fn line_label(line: Seq<char>) -> Option<AnnotationKind> {
    if contains_seq(line, marker_text(AnnotationKind::Tested)) {
        Some(AnnotationKind::Tested)
    } else if contains_seq(line, marker_text(AnnotationKind::ParentTested)) {
        Some(AnnotationKind::ParentTested)
    } else if contains_seq(line, marker_text(AnnotationKind::Untested)) {
        Some(AnnotationKind::Untested)
    } else if contains_seq(line, marker_text(AnnotationKind::Trivial)) {
        Some(AnnotationKind::Trivial)
    } else if contains_seq(line, marker_text(AnnotationKind::NotAFn)) {
        Some(AnnotationKind::NotAFn)
    } else {
        None
    }
}

/// How often each annotation kind was seen in one file.  A kind never seen
/// stays at zero and is left out of every report.
#[derive(Clone, Copy, Debug, PartialEq, Eq, Structural)]
pub struct LabelCount {
    pub tested: u64,
    pub parent_tested: u64,
    pub untested: u64,
    pub trivial: u64,
    pub not_a_fn: u64,
}

impl LabelCount {
    /// The tally recorded for one kind.
    pub open spec fn spec_count(self, k: AnnotationKind) -> nat {
        match k {
            AnnotationKind::Tested => self.tested as nat,
            AnnotationKind::ParentTested => self.parent_tested as nat,
            AnnotationKind::Untested => self.untested as nat,
            AnnotationKind::Trivial => self.trivial as nat,
            AnnotationKind::NotAFn => self.not_a_fn as nat,
        }
    }

    /// True when no annotation at all was seen in the file.
    pub open spec fn spec_is_empty(self) -> bool {
        self.tested == 0 && self.parent_tested == 0 && self.untested == 0 && self.trivial == 0
            && self.not_a_fn == 0
    }

    pub fn new() -> (r: LabelCount)
        ensures
            forall|k: AnnotationKind| r.spec_count(k) == 0,
            r.spec_is_empty(),
    {
        LabelCount { tested: 0, parent_tested: 0, untested: 0, trivial: 0, not_a_fn: 0 }
    }

    pub fn count(&self, k: AnnotationKind) -> (r: u64)
        ensures
            r as nat == self.spec_count(k),
    {
        match k {
            AnnotationKind::Tested => self.tested,
            AnnotationKind::ParentTested => self.parent_tested,
            AnnotationKind::Untested => self.untested,
            AnnotationKind::Trivial => self.trivial,
            AnnotationKind::NotAFn => self.not_a_fn,
        }
    }

    pub fn is_empty(&self) -> (r: bool)
        ensures
            r == self.spec_is_empty(),
    {
        self.tested == 0 && self.parent_tested == 0 && self.untested == 0 && self.trivial == 0
            && self.not_a_fn == 0
    }
}

/// Whether the given line carries a recognized annotation; when it does, the
/// tally of that annotation's kind grows by one and nothing else moves.
pub fn contains_valid_label(string: &str, label_count: &mut LabelCount) -> (b: bool)
    requires
        forall|k: AnnotationKind| old(label_count).spec_count(k) < u64::MAX,
    ensures
        b == (line_label(string@) is Some),
        match line_label(string@) {
            Some(k) => forall|k2: AnnotationKind|
                final(label_count).spec_count(k2) == old(label_count).spec_count(k2) + (
                if k2 == k {
                    1nat
                } else {
                    0nat
                }),
            None => *final(label_count) == *old(label_count),
        },
{
    proof {
        assert(old(label_count).spec_count(AnnotationKind::Tested) < u64::MAX);
        assert(old(label_count).spec_count(AnnotationKind::ParentTested) < u64::MAX);
        assert(old(label_count).spec_count(AnnotationKind::Untested) < u64::MAX);
        assert(old(label_count).spec_count(AnnotationKind::Trivial) < u64::MAX);
        assert(old(label_count).spec_count(AnnotationKind::NotAFn) < u64::MAX);
    }
    if contains_substr(string, marker_str(AnnotationKind::Tested)) {
        label_count.tested = label_count.tested + 1;
        true
    } else if contains_substr(string, marker_str(AnnotationKind::ParentTested)) {
        label_count.parent_tested = label_count.parent_tested + 1;
        true
    } else if contains_substr(string, marker_str(AnnotationKind::Untested)) {
        label_count.untested = label_count.untested + 1;
        true
    } else if contains_substr(string, marker_str(AnnotationKind::Trivial)) {
        label_count.trivial = label_count.trivial + 1;
        true
    } else if contains_substr(string, marker_str(AnnotationKind::NotAFn)) {
        label_count.not_a_fn = label_count.not_a_fn + 1;
        true
    } else {
        false
    }
}

} // verus!
