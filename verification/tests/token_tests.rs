use rbac_gate::token::{Claims, TokenService, VerifyError};

fn service() -> TokenService {
    TokenService::new(b"test-signing-secret".to_vec())
}

#[test]
fn round_trip_before_expiry() {
    let tokens = service();
    let now: u64 = 1_000_000;
    let ttl: u64 = 60;
    let token = tokens.issue(42, ttl, now);
    let claims = tokens.verify(&token, now).expect("fresh token should verify");
    assert_eq!(claims, Claims { sub: 42, exp: now + ttl });
    let claims = tokens.verify(&token, now + ttl - 1).expect("still inside the window");
    assert_eq!(claims.sub, 42);
}

#[test]
fn rejected_exactly_at_expiry() {
    let tokens = service();
    let now: u64 = 5_000;
    let token = tokens.issue(7, 100, now);
    let exp = now + 100;
    assert!(tokens.verify(&token, exp - 1).is_ok());
    assert_eq!(tokens.verify(&token, exp), Err(VerifyError::Expired));
    assert_eq!(tokens.verify(&token, exp + 1).unwrap_err(), VerifyError::Expired);
    assert_eq!(tokens.verify(&token, u64::MAX).unwrap_err(), VerifyError::Expired);
}

#[test]
fn tampered_token_has_invalid_signature() {
    let tokens = service();
    let other = TokenService::new(b"a-different-secret".to_vec());
    let token = other.issue(9, 3600, 1_000);
    assert_eq!(tokens.verify(&token, 1_000), Err(VerifyError::InvalidSignature));
}

#[test]
fn malformed_tokens_are_refused() {
    let tokens = service();
    assert_eq!(tokens.verify("garbage", 0), Err(VerifyError::Malformed));
    assert_eq!(tokens.verify("", 0), Err(VerifyError::Malformed));
    assert_eq!(tokens.verify("a.b.c", 0), Err(VerifyError::Malformed));
}

#[test]
fn issued_token_is_a_real_jwt() {
    // three dot-separated parts, none empty
    let tokens = service();
    let token = tokens.issue(1, 60, 0);
    let parts: Vec<&str> = token.split('.').collect();
    assert_eq!(parts.len(), 3);
    assert!(parts.iter().all(|p| !p.is_empty()));
}
