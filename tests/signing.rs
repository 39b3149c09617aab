use hmac::{Hmac, Mac};
use quicky::signing::sign_private_request_params;
use sha2::Sha256;

#[test]
fn sign_known_vector() {
    // RFC 4231, test case 2
    let s = sign_private_request_params("what do ya want for nothing?", "Jefe");
    assert_eq!(s, "5bdcc146bf60754e6a042426089575c75a003f089d2739839dec58b964ec3843");
}

#[test]
fn sign_is_deterministic_and_lower_hex() {
    let a = sign_private_request_params("api_key=k&qty=1", "secret");
    let b = sign_private_request_params("api_key=k&qty=1", "secret");
    assert_eq!(a, b);
    assert_eq!(a.len(), 64);
    assert!(a.chars().all(|c| c.is_ascii_digit() || ('a'..='f').contains(&c)));
}

#[test]
fn sign_changes_with_inputs() {
    let a = sign_private_request_params("api_key=k&qty=1", "secret");
    assert_ne!(a, sign_private_request_params("api_key=k&qty=2", "secret"));
    assert_ne!(a, sign_private_request_params("api_key=k&qty=1", "secreT"));
}

#[test]
fn sign_matches_independent_hmac() {
    let text = "api_key=KEY&order_type=Limit&price=0.58";
    let mut mac = Hmac::<Sha256>::new_from_slice(b"s3cr3t").unwrap();
    mac.update(text.as_bytes());
    let expected: String = mac.finalize().into_bytes().iter().map(|b| format!("{:02x}", b)).collect();
    assert_eq!(sign_private_request_params(text, "s3cr3t"), expected);
}
