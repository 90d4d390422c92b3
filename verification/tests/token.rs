use base64::Engine;
use crypto::mac::Mac;
use chatalone::jwt::{Jwt, JwtError};
use chatalone::id::{GeneralId, Id};

const SECRET: &[u8] = b"test_secret";

#[test]
fn jwt_test() {
    let jwt = Jwt::new(114514, 60, SECRET).unwrap();
    let str = jwt.encode();
    println!("{}", str);
    println!("\n");
    let jwt = Jwt::parse(str.as_str()).unwrap();
    println!("{}", jwt.encode());
}

#[test]
fn wire_matches_an_independent_construction() {
    // The engine's wire form equals one computed directly with the base64
    // and hmac primitives over the documented JSON framing.
    let now = 1_700_000_000i64;
    let wire = Jwt::generate_at(42, 60, SECRET, now);
    let b64 = base64::engine::general_purpose::URL_SAFE_NO_PAD;
    let header = "{\"alg\":\"HS256\",\"typ\":\"JWT\"}";
    let payload = format!("{{\"user_id\":{},\"exp_time\":{}}}", 42, now + 60);
    let signing_input = format!("{}.{}", b64.encode(header), b64.encode(payload));
    let mut mac = crypto::hmac::Hmac::new(crypto::sha2::Sha256::new(), SECRET);
    mac.input(signing_input.as_bytes());
    let sig = mac.result().code().to_vec();
    let expected = format!("{}.{}", signing_input, b64.encode(&sig));
    assert_eq!(wire, expected);
}

#[test]
fn fresh_token_round_trips_and_verifies() {
    // Subject 42, sixty-second time-to-live: parsing the encoded token and
    // verifying it right away succeeds.
    let now = 1_700_000_000i64;
    let wire = Jwt::generate_at(42, 60, SECRET, now);
    let token = Jwt::parse(wire.as_str()).unwrap();
    assert_eq!(token.payload.user_id, 42);
    assert_eq!(token.payload.exp_time, now + 60);
    assert_eq!(token.verify_at(SECRET, now), Ok(()));
    // Sixty-one seconds later the same token is expired.
    assert_eq!(token.verify_at(SECRET, now + 61), Err(JwtError::Expired));
    // The boundary instant is still valid.
    assert_eq!(token.verify_at(SECRET, now + 60), Ok(()));
}

#[test]
fn expired_token_fails_with_expired_despite_correct_signature() {
    let now = 1_700_000_000i64;
    let token = Jwt::new_at(7, -100, SECRET, now);
    assert_eq!(token.verify_at(SECRET, now), Err(JwtError::Expired));
    let wire = token.encode();
    match Jwt::parse_and_verify_at(wire.as_str(), SECRET, now) {
        Err(JwtError::Expired) => {},
        other => panic!("expected expiry, got {:?}", other.map(|_| ())),
    }
}

#[test]
fn flipping_any_signature_bit_fails_with_bad_signature() {
    let now = 1_700_000_000i64;
    let token = Jwt::new_at(42, 60, SECRET, now);
    for byte in 0..token.signature.len() {
        for bit in 0..8 {
            let mut tampered = Jwt {
                header: token.header,
                payload: token.payload,
                signature: token.signature.clone(),
            };
            tampered.signature[byte] ^= 1u8 << bit;
            let wire = tampered.encode();
            match Jwt::parse_and_verify_at(wire.as_str(), SECRET, now) {
                Err(JwtError::BadSignature) => {},
                other => panic!("expected a bad signature, got {:?}", other.map(|_| ())),
            }
        }
    }
}

#[test]
fn wrong_segment_count_fails_with_malformed_token() {
    let now = 1_700_000_000i64;
    let wire = Jwt::generate_at(42, 60, SECRET, now);
    // Two segments.
    let two: String = wire.rsplitn(2, '.').skip(1).collect();
    match Jwt::parse_and_verify_at(two.as_str(), SECRET, now) {
        Err(JwtError::MalformedToken) => {},
        other => panic!("expected malformed, got {:?}", other.map(|_| ())),
    }
    // Four segments.
    let four = format!("{}.x", wire);
    match Jwt::parse_and_verify_at(four.as_str(), SECRET, now) {
        Err(JwtError::MalformedToken) => {},
        other => panic!("expected malformed, got {:?}", other.map(|_| ())),
    }
    // And assorted junk.
    for bad in ["", "...", "abc", "a.b", "a.b.c.d", "?.?.?"] {
        assert!(matches!(Jwt::parse(bad), Err(JwtError::MalformedToken)));
    }
}

#[test]
fn wrong_secret_fails_with_bad_signature() {
    let now = 1_700_000_000i64;
    let wire = Jwt::generate_at(42, 60, SECRET, now);
    match Jwt::parse_and_verify_at(wire.as_str(), b"another_secret", now) {
        Err(JwtError::BadSignature) => {},
        other => panic!("expected a bad signature, got {:?}", other.map(|_| ())),
    }
}

#[test]
fn authorize_unscrambles_the_token_subject() {
    let now = 1_700_000_000i64;
    // A missing credential is rejected as such.
    assert_eq!(
        chatalone::jwt::authorize(&None, SECRET, now),
        Err(JwtError::MissingCredential)
    );
    // The token carries the scrambled id; the gateway recovers the internal one.
    let internal = Id::from_decoded(114514u32);
    let wire = Jwt::generate_at(internal.encode() as u64, 60, SECRET, now);
    let uid = chatalone::jwt::authorize(&Some(wire), SECRET, now).unwrap();
    assert_eq!(uid.decode(), 114514);
    // An expired credential is rejected with the verification error.
    let old = Jwt::generate_at(internal.encode() as u64, -10, SECRET, now);
    assert_eq!(
        chatalone::jwt::authorize(&Some(old), SECRET, now),
        Err(JwtError::Expired)
    );
}

#[test]
fn wall_clock_tokens_verify_right_away() {
    let wire = Jwt::generate(114514, 60, SECRET).unwrap();
    let token = Jwt::parse_and_verify(wire.as_str(), SECRET).unwrap();
    assert_eq!(token.payload.user_id, 114514);
    assert_eq!(token.verify(SECRET), Ok(()));
    let payload = chatalone::jwt::JwtPayload::new(7, 60).unwrap();
    assert_eq!(payload.user_id, 7);
}

#[test]
fn http_status_maps_credential_errors_to_unauthorized() {
    assert_eq!(JwtError::MalformedToken.http_status(), 401);
    assert_eq!(JwtError::BadSignature.http_status(), 401);
    assert_eq!(JwtError::Expired.http_status(), 401);
    assert_eq!(JwtError::MissingCredential.http_status(), 401);
    assert_eq!(JwtError::SigningError.http_status(), 500);
}

#[test]
fn credential_errors_carry_the_boundary_messages() {
    assert_eq!(JwtError::MalformedToken.message(), "Invalid token");
    assert_eq!(JwtError::BadSignature.message(), "Invalid token");
    assert_eq!(JwtError::Expired.message(), "Token expired");
    assert_eq!(JwtError::MissingCredential.message(), "Missing token");
    assert_eq!(JwtError::SigningError.message(), "Token Validation Error");
}
