use vstd::prelude::*;

verus! {

/// Errors raised while parsing table identifiers and building the policy
/// registry from configuration.  Registry construction errors are fatal to
/// a load: a malformed configuration never yields a partial policy set.
#[derive(Clone, Copy, Debug, PartialEq, Eq, Structural)]
pub enum PolicyError {
    /// A dotted table string was malformed: the schema or table part was
    /// empty after splitting.
    Format,
    /// A table was already registered under a conflicting policy category.
    DuplicatePolicy,
    /// A predicate, column or lookback value in the configuration was empty.
    Validation,
}

} // verus!
