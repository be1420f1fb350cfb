use vstd::prelude::*;

verus! {

/// The privilege bits of a connected role, as read from the server's role
/// catalog.
#[derive(Clone, Copy, Debug, PartialEq, Eq, Structural)]
pub struct PrivilegeCheck {
    pub has_replication: bool,
    pub has_create_db: bool,
    pub has_create_role: bool,
    pub is_superuser: bool,
}

impl PrivilegeCheck {
    /// True when the role suffices for a migration source: it holds the
    /// replication privilege or is a superuser.
    pub fn source_sufficient(&self) -> (r: bool)
        ensures
            r == (self.has_replication || self.is_superuser),
    {
        self.has_replication || self.is_superuser
    }

    /// True when the role suffices for a migration target: it may create
    /// databases or is a superuser.
    pub fn target_sufficient(&self) -> (r: bool)
        ensures
            r == (self.has_create_db || self.is_superuser),
    {
        self.has_create_db || self.is_superuser
    }
}

} // verus!
