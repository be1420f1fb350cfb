use pgmigrate::privileges::PrivilegeCheck;
use pgmigrate::publication::{
    classify_publication_error, create_publication_query, drop_publication_query,
    PublicationErrorKind,
};

#[test]
fn classify_already_exists() {
    let r = classify_publication_error("ERROR: publication \"p\" already exists");
    assert_eq!(r, PublicationErrorKind::AlreadyExists);
}

#[test]
fn classify_permission_denied() {
    assert_eq!(
        classify_publication_error("ERROR: permission denied for database app"),
        PublicationErrorKind::PermissionDenied
    );
    assert_eq!(
        classify_publication_error("ERROR: must be owner of database app"),
        PublicationErrorKind::PermissionDenied
    );
}

#[test]
fn classify_replication_disabled() {
    assert_eq!(
        classify_publication_error("ERROR: wal_level must be set to logical"),
        PublicationErrorKind::ReplicationDisabled
    );
    assert_eq!(
        classify_publication_error("ERROR: logical replication is not enabled"),
        PublicationErrorKind::ReplicationDisabled
    );
}

#[test]
fn classify_other() {
    assert_eq!(
        classify_publication_error("ERROR: out of memory"),
        PublicationErrorKind::Other
    );
    assert_eq!(classify_publication_error(""), PublicationErrorKind::Other);
}

#[test]
fn publication_queries() {
    assert_eq!(
        create_publication_query("mig_pub"),
        "CREATE PUBLICATION \"mig_pub\" FOR ALL TABLES"
    );
    assert_eq!(
        drop_publication_query("mig_pub"),
        "DROP PUBLICATION IF EXISTS \"mig_pub\""
    );
}

#[test]
fn privilege_sufficiency() {
    let none = PrivilegeCheck {
        has_replication: false,
        has_create_db: false,
        has_create_role: false,
        is_superuser: false,
    };
    assert!(!none.source_sufficient());
    assert!(!none.target_sufficient());

    let replication = PrivilegeCheck { has_replication: true, ..none };
    assert!(replication.source_sufficient());
    assert!(!replication.target_sufficient());

    let create_db = PrivilegeCheck { has_create_db: true, ..none };
    assert!(!create_db.source_sufficient());
    assert!(create_db.target_sufficient());

    let superuser = PrivilegeCheck { is_superuser: true, ..none };
    assert!(superuser.source_sufficient());
    assert!(superuser.target_sufficient());
}
