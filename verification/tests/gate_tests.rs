use rbac_gate::gate::{Gate, GateOutcome, AUTHENTICATED_ONLY};
use rbac_gate::rbac::RbacStore;
use rbac_gate::token::TokenService;

const NOW: u64 = 1_700_000_000;
const TTL: u64 = 3600;

/// alice (id 1) holds ITEM_WRITE through the editor role; bob (id 2) has no
/// roles at all.
fn setup() -> (RbacStore, TokenService) {
    let mut store = RbacStore::new();
    let alice = store.create_user("alice", "hash-a").unwrap();
    let _bob = store.create_user("bob", "hash-b").unwrap();
    let editor = store.create_role("editor", "staff").unwrap();
    let write = store.create_permission("ITEM_WRITE", "crud").unwrap();
    store.grant_permission(editor, write).unwrap();
    store.assign_role(alice, editor).unwrap();
    (store, TokenService::new(b"gate-test-secret".to_vec()))
}

fn bearer(tokens: &TokenService, sub: i32) -> String {
    format!("Bearer {}", tokens.issue(sub, TTL, NOW))
}

#[test]
fn missing_header_is_unauthorized() {
    let (store, tokens) = setup();
    let gate = Gate::new("ITEM_WRITE");
    assert_eq!(
        gate.check(&store, &tokens, None, NOW),
        GateOutcome::Unauthorized("Missing token".to_string())
    );
}

#[test]
fn non_bearer_header_is_unauthorized() {
    let (store, tokens) = setup();
    let gate = Gate::new("ITEM_WRITE");
    for header in ["Token abc", "bearer abc", "Bearer", "", "Basic dXNlcg=="] {
        assert_eq!(
            gate.check(&store, &tokens, Some(header), NOW),
            GateOutcome::Unauthorized("Invalid token format".to_string()),
            "header: {header:?}"
        );
    }
}

#[test]
fn malformed_bearer_token_is_unauthorized() {
    let (store, tokens) = setup();
    let gate = Gate::new("ITEM_WRITE");
    assert_eq!(
        gate.check(&store, &tokens, Some("Bearer malformedtoken"), NOW),
        GateOutcome::Unauthorized("Invalid token".to_string())
    );
}

#[test]
fn foreign_signature_is_unauthorized() {
    let (store, tokens) = setup();
    let foreign = TokenService::new(b"someone-else".to_vec());
    let gate = Gate::new("ITEM_WRITE");
    let header = bearer(&foreign, 1);
    assert_eq!(
        gate.check(&store, &tokens, Some(&header), NOW),
        GateOutcome::Unauthorized("Invalid token".to_string())
    );
}

#[test]
fn identity_without_roles_is_forbidden() {
    let (store, tokens) = setup();
    let gate = Gate::new("ITEM_WRITE");
    let header = bearer(&tokens, 2);
    assert_eq!(
        gate.check(&store, &tokens, Some(&header), NOW),
        GateOutcome::Forbidden("Forbidden".to_string())
    );
}

#[test]
fn identity_with_permission_is_forwarded_with_claims() {
    let (store, tokens) = setup();
    let gate = Gate::new("ITEM_WRITE");
    let header = bearer(&tokens, 1);
    match gate.check(&store, &tokens, Some(&header), NOW) {
        GateOutcome::Forward(claims) => {
            assert_eq!(claims.sub, 1);
            assert_eq!(claims.exp, NOW + TTL);
        },
        other => panic!("expected Forward, got {other:?}"),
    }
}

#[test]
fn expired_token_is_unauthorized() {
    let (store, tokens) = setup();
    let gate = Gate::new("ITEM_WRITE");
    let header = bearer(&tokens, 1);
    // still fine one second before expiry, rejected at expiry and beyond
    assert!(matches!(
        gate.check(&store, &tokens, Some(&header), NOW + TTL - 1),
        GateOutcome::Forward(_)
    ));
    assert_eq!(
        gate.check(&store, &tokens, Some(&header), NOW + TTL),
        GateOutcome::Unauthorized("Token expired".to_string())
    );
    assert_eq!(
        gate.check(&store, &tokens, Some(&header), NOW + TTL + 9999),
        GateOutcome::Unauthorized("Token expired".to_string())
    );
}

#[test]
fn sentinel_route_needs_no_permission() {
    let (store, tokens) = setup();
    let gate = Gate::new(AUTHENTICATED_ONLY);
    // bob has no roles, yet a valid token alone passes the sentinel route
    let header = bearer(&tokens, 2);
    match gate.check(&store, &tokens, Some(&header), NOW) {
        GateOutcome::Forward(claims) => assert_eq!(claims.sub, 2),
        other => panic!("expected Forward, got {other:?}"),
    }
    // but an invalid token still does not
    assert_eq!(
        gate.check(&store, &tokens, Some("Bearer junk"), NOW),
        GateOutcome::Unauthorized("Invalid token".to_string())
    );
}

#[test]
fn clock_driven_gate_answers_the_same_table() {
    let (store, tokens) = setup();
    let gate = Gate::new("ITEM_WRITE");
    assert_eq!(
        gate.check_now(&store, &tokens, None),
        GateOutcome::Unauthorized("Missing token".to_string())
    );
    assert_eq!(
        gate.check_now(&store, &tokens, Some("Token abc")),
        GateOutcome::Unauthorized("Invalid token format".to_string())
    );
    assert_eq!(
        gate.check_now(&store, &tokens, Some("Bearer junk")),
        GateOutcome::Unauthorized("Invalid token".to_string())
    );
}
