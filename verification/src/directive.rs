use vstd::prelude::*;
use crate::rules::{Policy, PolicyView};

verus! {

/// The extraction directive the dump step receives for one table.
#[derive(Debug, PartialEq, Eq)]
pub enum Directive {
    /// Extract no rows: only the structural definition.
    NoRows,
    /// Extract all rows, unrestricted.
    AllRows,
    /// Extract the rows satisfying this boolean expression.
    Where(String),
}

/// The view of a directive.
pub enum DirectiveView {
    NoRows,
    AllRows,
    Where(Seq<char>),
}

impl View for Directive {
    type V = DirectiveView;

    open spec fn view(&self) -> DirectiveView {
        match self {
            Directive::NoRows => DirectiveView::NoRows,
            Directive::AllRows => DirectiveView::AllRows,
            Directive::Where(w) => DirectiveView::Where(w@),
        }
    }
}

/// The row filter a time window synthesizes: the column lies within the
/// lookback interval of NOW().  The anchor is the time of the dump-step
/// execution, so two dumps of the same configuration taken at different
/// times may select different rows.
pub open spec fn spec_time_filter(column: Seq<char>, lookback: Seq<char>) -> Seq<char> {
    "\""@ + column + "\" >= NOW() - INTERVAL '"@ + lookback + "'"@
}

/// The directive a policy resolves to.
pub open spec fn spec_directive(p: PolicyView) -> DirectiveView {
    match p {
        PolicyView::Full => DirectiveView::AllRows,
        PolicyView::SchemaOnly => DirectiveView::NoRows,
        PolicyView::Predicate { predicate } => DirectiveView::Where(predicate),
        PolicyView::TimeWindow { column, lookback } => DirectiveView::Where(
            spec_time_filter(column, lookback),
        ),
    }
}

/// Produces the effective extraction directive of a resolved policy: no
/// rows for schema-only, all rows for a full copy, the predicate verbatim
/// for a predicate filter, and a synthesized NOW()-anchored comparison for
/// a time window.
pub fn extraction_directive(policy: Policy) -> (r: Directive)
    ensures
        r@ == spec_directive(policy@),
{
    match policy {
        Policy::Full => Directive::AllRows,
        Policy::SchemaOnly => Directive::NoRows,
        Policy::Predicate { predicate } => Directive::Where(predicate),
        Policy::TimeWindow { column, lookback } => {
            let mut out = String::new();
            out.append("\"");
            out.append(column.as_str());
            out.append("\" >= NOW() - INTERVAL '");
            out.append(lookback.as_str());
            out.append("'");
            proof {
                assert(out@ =~= spec_time_filter(column@, lookback@));
            }
            Directive::Where(out)
        },
    }
}

} // verus!
