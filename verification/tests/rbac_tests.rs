use rbac_gate::rbac::{RbacError, RbacStore, RolePermission, UserRole};

fn store_with_alice_editor() -> (RbacStore, i32, i32, i32) {
    let mut store = RbacStore::new();
    let alice = store.create_user("alice", "hash-a").unwrap();
    let editor = store.create_role("editor", "staff").unwrap();
    let write = store.create_permission("ITEM_WRITE", "crud").unwrap();
    (store, alice, editor, write)
}

#[test]
fn permission_flows_through_role() {
    let (mut store, alice, editor, write) = store_with_alice_editor();
    let bob = store.create_user("bob", "hash-b").unwrap();
    store.grant_permission(editor, write).unwrap();
    store.assign_role(alice, editor).unwrap();
    assert!(store.has_permission(alice, "ITEM_WRITE"));
    assert!(!store.has_permission(alice, "ITEM_READ"));
    // an identity with no roles holds nothing
    assert!(!store.has_permission(bob, "ITEM_WRITE"));
    // an unknown identity holds nothing
    assert!(!store.has_permission(999, "ITEM_WRITE"));
}

#[test]
fn permission_needs_both_edges() {
    let (mut store, alice, editor, write) = store_with_alice_editor();
    // only the role assignment: no grant yet
    store.assign_role(alice, editor).unwrap();
    assert!(!store.has_permission(alice, "ITEM_WRITE"));
    store.grant_permission(editor, write).unwrap();
    assert!(store.has_permission(alice, "ITEM_WRITE"));
}

#[test]
fn duplicate_grant_is_detected_not_absorbed() {
    let (mut store, alice, editor, write) = store_with_alice_editor();
    store.assign_role(alice, editor).unwrap();
    assert_eq!(store.grant_permission(editor, write), Ok(()));
    let before = store.has_permission(alice, "ITEM_WRITE");
    assert_eq!(store.grant_permission(editor, write), Err(RbacError::DuplicateEdge));
    // the duplicate attempt changed no effective permission
    assert_eq!(store.has_permission(alice, "ITEM_WRITE"), before);
    assert_eq!(store.list_permissions_for_role(editor).len(), 1);
}

#[test]
fn duplicate_assignment_is_detected() {
    let (mut store, alice, editor, _) = store_with_alice_editor();
    assert_eq!(store.assign_role(alice, editor), Ok(()));
    assert_eq!(store.assign_role(alice, editor), Err(RbacError::DuplicateEdge));
}

#[test]
fn duplicate_names_are_refused() {
    let (mut store, _, _, _) = store_with_alice_editor();
    assert_eq!(store.create_role("editor", "other"), Err(RbacError::DuplicateName));
    assert_eq!(store.create_permission("ITEM_WRITE", "other"), Err(RbacError::DuplicateName));
    assert_eq!(store.create_user("alice", "hash-z"), Err(RbacError::DuplicateName));
    // fresh names still pass
    assert!(store.create_role("viewer", "staff").is_ok());
    assert!(store.create_permission("ITEM_READ", "crud").is_ok());
}

#[test]
fn edges_require_existing_records() {
    let (mut store, alice, editor, write) = store_with_alice_editor();
    assert_eq!(store.grant_permission(999, write), Err(RbacError::UnknownId));
    assert_eq!(store.grant_permission(editor, 999), Err(RbacError::UnknownId));
    assert_eq!(store.grant_permission(0, write), Err(RbacError::UnknownId));
    assert_eq!(store.assign_role(999, editor), Err(RbacError::UnknownId));
    assert_eq!(store.assign_role(alice, 999), Err(RbacError::UnknownId));
}

#[test]
fn listings_are_exact_and_empty_lists_are_no_error() {
    let (mut store, alice, editor, write) = store_with_alice_editor();
    assert!(store.list_permissions_for_role(editor).is_empty());
    assert!(store.list_roles_for_user(alice).is_empty());
    let read = store.create_permission("ITEM_READ", "crud").unwrap();
    store.grant_permission(editor, write).unwrap();
    store.grant_permission(editor, read).unwrap();
    store.assign_role(alice, editor).unwrap();
    assert_eq!(
        store.list_permissions_for_role(editor),
        vec![
            RolePermission { role_id: editor, permission_id: write },
            RolePermission { role_id: editor, permission_id: read },
        ]
    );
    assert_eq!(
        store.list_roles_for_user(alice),
        vec![UserRole { user_id: alice, role_id: editor }]
    );
    // a role or identity without edges lists empty, not an error
    assert!(store.list_permissions_for_role(999).is_empty());
    assert!(store.list_roles_for_user(999).is_empty());
}

#[test]
fn find_user_by_name_is_exact() {
    let (store, alice, _, _) = store_with_alice_editor();
    let found = store.find_user_by_name("alice").expect("alice exists");
    assert_eq!(found.id, alice);
    assert_eq!(found.username, "alice");
    assert_eq!(found.password, "hash-a");
    assert!(store.find_user_by_name("nobody").is_none());
}

#[test]
fn ids_are_assigned_densely() {
    let mut store = RbacStore::new();
    assert_eq!(store.create_user("u1", "h").unwrap(), 1);
    assert_eq!(store.create_user("u2", "h").unwrap(), 2);
    assert_eq!(store.create_role("r1", "t").unwrap(), 1);
    assert_eq!(store.create_permission("p1", "t").unwrap(), 1);
    assert_eq!(store.create_permission("p2", "t").unwrap(), 2);
}
