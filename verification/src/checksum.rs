use vstd::prelude::*;
use crate::digest::TableDigest;
use crate::ident::QualifiedTable;

verus! {

/// What the digest scan of one side (source or target) of a table yielded.
#[derive(Debug)]
pub enum SideReport {
    /// The table exists and its digest was computed.
    Computed(TableDigest),
    /// The table does not exist on this side.
    Missing,
    /// The scan failed (connectivity, access denied, timeout): the reason.
    Failed(String),
}

/// The view of a side report.
pub enum SideReportView {
    Computed(TableDigest),
    Missing,
    Failed(Seq<char>),
}

impl View for SideReport {
    type V = SideReportView;

    open spec fn view(&self) -> SideReportView {
        match self {
            SideReport::Computed(d) => SideReportView::Computed(*d),
            SideReport::Missing => SideReportView::Missing,
            SideReport::Failed(r) => SideReportView::Failed(r@),
        }
    }
}

/// The classified outcome of comparing the two sides of one table.
#[derive(Debug, PartialEq, Eq)]
pub enum ChecksumStatus {
    /// Digests and row counts both agree.
    Match,
    /// The sides disagree; the flags say whether the digests, the row
    /// counts, or both differ.  Equal digests with differing counts are
    /// still a mismatch, flagged rather than silently matched.
    Mismatch { digests_differ: bool, counts_differ: bool },
    /// The table exists only on the source.
    SourceOnly,
    /// The table exists only on the target.
    TargetOnly,
    /// A digest scan failed, with the reason.  This is not evidence of
    /// data divergence and is never folded into `Mismatch`.
    Error(String),
}

/// The view of a checksum status.
pub enum ChecksumStatusView {
    Match,
    Mismatch { digests_differ: bool, counts_differ: bool },
    SourceOnly,
    TargetOnly,
    Error(Seq<char>),
}

impl View for ChecksumStatus {
    type V = ChecksumStatusView;

    open spec fn view(&self) -> ChecksumStatusView {
        match self {
            ChecksumStatus::Match => ChecksumStatusView::Match,
            ChecksumStatus::Mismatch { digests_differ, counts_differ } => (
            ChecksumStatusView::Mismatch {
                digests_differ: *digests_differ,
                counts_differ: *counts_differ,
            }),
            ChecksumStatus::SourceOnly => ChecksumStatusView::SourceOnly,
            ChecksumStatus::TargetOnly => ChecksumStatusView::TargetOnly,
            ChecksumStatus::Error(r) => ChecksumStatusView::Error(r@),
        }
    }
}

/// The digest a side reports, when it computed one.
pub open spec fn side_digest(s: SideReportView) -> Option<u64> {
    match s {
        SideReportView::Computed(d) => Option::Some(d.digest),
        _ => Option::None,
    }
}

/// The row count a side reports, when it computed one.
pub open spec fn side_count(s: SideReportView) -> Option<u64> {
    match s {
        SideReportView::Computed(d) => Option::Some(d.row_count),
        _ => Option::None,
    }
}

/// The status that comparing two side reports yields.  A failed scan on
/// either side dominates (the source's reason first); then presence is
/// compared; then digests and row counts.
pub open spec fn spec_compare(source: SideReportView, target: SideReportView) -> ChecksumStatusView {
    match (source, target) {
        (SideReportView::Failed(r), _) => ChecksumStatusView::Error(r),
        (_, SideReportView::Failed(r)) => ChecksumStatusView::Error(r),
        (SideReportView::Computed(s), SideReportView::Computed(t)) => {
            if s.digest == t.digest && s.row_count == t.row_count {
                ChecksumStatusView::Match
            } else {
                ChecksumStatusView::Mismatch {
                    digests_differ: s.digest != t.digest,
                    counts_differ: s.row_count != t.row_count,
                }
            }
        },
        (SideReportView::Computed(_), SideReportView::Missing) => ChecksumStatusView::SourceOnly,
        (SideReportView::Missing, SideReportView::Computed(_)) => ChecksumStatusView::TargetOnly,
        (SideReportView::Missing, SideReportView::Missing) => ChecksumStatusView::Error(
            "table missing on both sides"@,
        ),
    }
}

/// The verification outcome of one table: a fresh value object per run,
/// holding what each side reported and the classified status.
#[derive(Debug)]
pub struct ChecksumResult {
    pub table: QualifiedTable,
    pub source_digest: Option<u64>,
    pub target_digest: Option<u64>,
    pub source_row_count: Option<u64>,
    pub target_row_count: Option<u64>,
    pub status: ChecksumStatus,
}

/// Compares the two sides of one table and classifies the outcome.
pub fn compare_tables(table: QualifiedTable, source: SideReport, target: SideReport) -> (r:
    ChecksumResult)
    ensures
        r.table == table,
        r.source_digest == side_digest(source@),
        r.source_row_count == side_count(source@),
        r.target_digest == side_digest(target@),
        r.target_row_count == side_count(target@),
        r.status@ == spec_compare(source@, target@),
{
    let (source_digest, source_row_count): (Option<u64>, Option<u64>) = match &source {
        SideReport::Computed(d) => (Option::Some(d.digest), Option::Some(d.row_count)),
        _ => (Option::None, Option::None),
    };
    let (target_digest, target_row_count): (Option<u64>, Option<u64>) = match &target {
        SideReport::Computed(d) => (Option::Some(d.digest), Option::Some(d.row_count)),
        _ => (Option::None, Option::None),
    };
    let status: ChecksumStatus = match (source, target) {
        (SideReport::Failed(reason), _) => ChecksumStatus::Error(reason),
        (_, SideReport::Failed(reason)) => ChecksumStatus::Error(reason),
        (SideReport::Computed(s), SideReport::Computed(t)) => {
            if s.digest == t.digest && s.row_count == t.row_count {
                ChecksumStatus::Match
            } else {
                ChecksumStatus::Mismatch {
                    digests_differ: s.digest != t.digest,
                    counts_differ: s.row_count != t.row_count,
                }
            }
        },
        (SideReport::Computed(_), SideReport::Missing) => ChecksumStatus::SourceOnly,
        (SideReport::Missing, SideReport::Computed(_)) => ChecksumStatus::TargetOnly,
        (SideReport::Missing, SideReport::Missing) => ChecksumStatus::Error(
            "table missing on both sides".to_owned(),
        ),
    };
    ChecksumResult {
        table,
        source_digest,
        target_digest,
        source_row_count,
        target_row_count,
        status,
    }
}

} // verus!
