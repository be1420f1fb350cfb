use vstd::prelude::*;
use crate::text::{contains_seq, str_contains};

verus! {

/// Why a CREATE PUBLICATION attempt failed, read from the server's error
/// message.
#[derive(Clone, Copy, Debug, PartialEq, Eq, Structural)]
pub enum PublicationErrorKind {
    /// The publication already exists: creation is treated as idempotent,
    /// not as a failure.
    AlreadyExists,
    /// The role lacks the privilege to create a publication.
    PermissionDenied,
    /// Logical replication is not enabled on the server.
    ReplicationDisabled,
    /// Any other failure.
    Other,
}

/// The classification of a CREATE PUBLICATION error message, by the
/// phrases the server uses: an existing publication first, then privilege
/// refusals, then a disabled wal_level.
pub open spec fn spec_classify(msg: Seq<char>) -> PublicationErrorKind {
    if contains_seq(msg, "already exists"@) {
        PublicationErrorKind::AlreadyExists
    } else if contains_seq(msg, "permission denied"@) || contains_seq(msg, "must be owner"@) {
        PublicationErrorKind::PermissionDenied
    } else if contains_seq(msg, "wal_level"@) || contains_seq(msg, "logical replication"@) {
        PublicationErrorKind::ReplicationDisabled
    } else {
        PublicationErrorKind::Other
    }
}

/// Classifies the error message of a failed CREATE PUBLICATION, deciding
/// whether the creation may be treated as already done, was refused for
/// privileges, or needs logical replication enabled.
pub fn classify_publication_error(message: &str) -> (r: PublicationErrorKind)
    ensures
        r == spec_classify(message@),
{
    if str_contains(message, "already exists") {
        PublicationErrorKind::AlreadyExists
    } else if str_contains(message, "permission denied") || str_contains(
        message,
        "must be owner",
    ) {
        PublicationErrorKind::PermissionDenied
    } else if str_contains(message, "wal_level") || str_contains(
        message,
        "logical replication",
    ) {
        PublicationErrorKind::ReplicationDisabled
    } else {
        PublicationErrorKind::Other
    }
}

/// The statement that creates a publication for all tables.
pub open spec fn spec_create_publication_query(name: Seq<char>) -> Seq<char> {
    "CREATE PUBLICATION \""@ + name + "\" FOR ALL TABLES"@
}

/// The statement that drops a publication if it exists.
pub open spec fn spec_drop_publication_query(name: Seq<char>) -> Seq<char> {
    "DROP PUBLICATION IF EXISTS \""@ + name + "\""@
}

/// Builds the CREATE PUBLICATION statement for a publication name.
pub fn create_publication_query(name: &str) -> (r: String)
    ensures
        r@ == spec_create_publication_query(name@),
{
    let mut out = String::new();
    out.append("CREATE PUBLICATION \"");
    out.append(name);
    out.append("\" FOR ALL TABLES");
    proof {
        assert(out@ =~= spec_create_publication_query(name@));
    }
    out
}

/// Builds the DROP PUBLICATION statement for a publication name.
pub fn drop_publication_query(name: &str) -> (r: String)
    ensures
        r@ == spec_drop_publication_query(name@),
{
    let mut out = String::new();
    out.append("DROP PUBLICATION IF EXISTS \"");
    out.append(name);
    out.append("\"");
    proof {
        assert(out@ =~= spec_drop_publication_query(name@));
    }
    out
}

} // verus!
