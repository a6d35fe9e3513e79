use base64::prelude::{Engine, BASE64_URL_SAFE_NO_PAD};
use backend::authentication::{authenticate, claims_outcome, ISSUER};
use backend::error::{AuthenticationError, JwtFailure, Source};
use jsonwebtoken::jwk::JwkSet;
use jsonwebtoken::{encode, Algorithm, EncodingKey, Header};
use serde_json::Value;

// The key "k1" is the HMAC secret "secret" (base64url "c2VjcmV0").
const KEYS: &str = r#"{"keys":[{"kty":"oct","kid":"k1","alg":"HS256","k":"c2VjcmV0"}]}"#;

fn keys() -> JwkSet {
    serde_json::from_str(KEYS).unwrap()
}

fn now() -> u64 {
    std::time::SystemTime::now().duration_since(std::time::UNIX_EPOCH).unwrap().as_secs()
}

fn claims(audience: &str, expires: u64) -> Value {
    let mut map = serde_json::Map::new();
    map.insert("sub".to_string(), Value::from("550e8400-e29b-41d4-a716-446655440000"));
    map.insert("role".to_string(), Value::from("authenticated"));
    map.insert("aud".to_string(), Value::from(audience));
    map.insert("iss".to_string(), Value::from(ISSUER[0]));
    map.insert("exp".to_string(), Value::from(expires));
    Value::Object(map)
}

fn token(kid: Option<&str>, secret: &[u8], claims: &Value) -> String {
    let mut header = Header::new(Algorithm::HS256);
    header.kid = kid.map(|k| k.to_string());
    encode(&header, claims, &EncodingKey::from_secret(secret)).unwrap()
}

#[test]
fn a_valid_token_gives_its_claims() {
    let t = token(Some("k1"), b"secret", &claims("authenticated", now() + 3600));
    let claims = authenticate(&t, &keys()).ok().unwrap();
    let sub = uuid::Uuid::parse_str("550e8400-e29b-41d4-a716-446655440000").unwrap();
    assert_eq!(claims.sub.bytes, *sub.as_bytes());
    assert_eq!(claims.role, "authenticated");
}

#[test]
fn a_token_without_key_id_is_refused() {
    let t = token(None, b"secret", &claims("authenticated", now() + 3600));
    let r = authenticate(&t, &keys()).err().unwrap();
    assert_eq!(r.root_cause().error_type, Source::Authentication(AuthenticationError::InvalidClaim));
    assert_eq!(r.root_cause().message, "JWT does not contain a kid claim");
}

#[test]
fn a_token_for_an_unknown_key_is_refused() {
    let t = token(Some("k2"), b"secret", &claims("authenticated", now() + 3600));
    let r = authenticate(&t, &keys()).err().unwrap();
    assert_eq!(r.root_cause().error_type, Source::Authentication(AuthenticationError::NoMatchingKey));
    assert_eq!(r.status(), 401);
}

#[test]
fn garbage_is_refused() {
    let r = authenticate("not a token", &keys()).err().unwrap();
    assert_eq!(r.root_cause().error_type, Source::Authentication(AuthenticationError::InvalidFormat));
}

#[test]
fn a_forged_signature_is_refused() {
    let t = token(Some("k1"), b"another secret", &claims("authenticated", now() + 3600));
    let r = authenticate(&t, &keys()).err().unwrap();
    assert_eq!(r.root_cause().error_type, Source::Authentication(AuthenticationError::InvalidSignature));
}

#[test]
fn an_expired_token_is_refused() {
    let t = token(Some("k1"), b"secret", &claims("authenticated", now() - 3600));
    let r = authenticate(&t, &keys()).err().unwrap();
    assert_eq!(r.root_cause().error_type, Source::Authentication(AuthenticationError::InvalidTimeRange));
}

#[test]
fn a_token_for_another_audience_is_refused() {
    let t = token(Some("k1"), b"secret", &claims("anon", now() + 3600));
    let r = authenticate(&t, &keys()).err().unwrap();
    assert_eq!(
        r.root_cause().error_type,
        Source::Authentication(AuthenticationError::InsufficientPermissions)
    );
}

#[test]
fn a_short_edwards_key_is_refused() {
    // An Ed25519 key whose `x` is only four bytes long.
    let keys: JwkSet = serde_json::from_str(
        r#"{"keys":[{"kty":"OKP","crv":"Ed25519","kid":"e1","x":"AQIDBA"}]}"#,
    )
    .unwrap();
    let header = BASE64_URL_SAFE_NO_PAD.encode(r#"{"alg":"EdDSA","kid":"e1"}"#);
    let payload = BASE64_URL_SAFE_NO_PAD.encode(r#"{"sub":"x","exp":99999999999}"#);
    let t = format!("{header}.{payload}.AAAA");
    let r = authenticate(&t, &keys).err().unwrap();
    assert_eq!(r.root_cause().error_type, Source::Authentication(AuthenticationError::InvalidFormat));
    assert_eq!(r.root_cause().message, "JWT could not be decoded or deserialized");
    assert_eq!(r.status(), 401);
}

#[test]
fn a_token_from_another_issuer_is_refused() {
    let mut c = claims("authenticated", now() + 3600);
    c["iss"] = Value::from("https://elsewhere.example");
    let t = token(Some("k1"), b"secret", &c);
    let r = authenticate(&t, &keys()).err().unwrap();
    assert_eq!(r.root_cause().error_type, Source::Authentication(AuthenticationError::InvalidIssuer));
}

#[test]
fn a_token_without_a_usable_subject_is_refused() {
    let mut c = claims("authenticated", now() + 3600);
    c["sub"] = Value::from("not a uuid");
    let t = token(Some("k1"), b"secret", &c);
    let r = authenticate(&t, &keys()).err().unwrap();
    assert_eq!(r.root_cause().error_type, Source::Authentication(AuthenticationError::InvalidFormat));
    assert_eq!(r.status(), 401);
    let mut c = claims("authenticated", now() + 3600);
    c.as_object_mut().unwrap().remove("role");
    let t = token(Some("k1"), b"secret", &c);
    let r = authenticate(&t, &keys()).err().unwrap();
    assert_eq!(r.root_cause().message, "JWT could not be decoded or deserialized");
}

#[test]
fn decoded_claims_give_the_user_and_role() {
    let mut map = serde_json::Map::new();
    map.insert("sub".to_string(), Value::from("550e8400-e29b-41d4-a716-446655440000"));
    map.insert("role".to_string(), Value::from("admin"));
    let c = claims_outcome(Ok(Value::Object(map.clone()))).ok().unwrap();
    assert_eq!(c.sub.bytes, *uuid::Uuid::parse_str("550e8400-e29b-41d4-a716-446655440000").unwrap().as_bytes());
    assert_eq!(c.role, "admin");
    map.remove("role");
    let r = claims_outcome(Ok(Value::Object(map))).err().unwrap();
    assert_eq!(r.root_cause().error_type, Source::Authentication(AuthenticationError::InvalidFormat));
    let r = claims_outcome(Err(JwtFailure::ExpiredSignature)).err().unwrap();
    assert_eq!(r.root_cause().error_type, Source::Authentication(AuthenticationError::InvalidTimeRange));
    assert_eq!(r.status(), 401);
    let r = claims_outcome(Err(JwtFailure::InvalidAudience)).err().unwrap();
    assert_eq!(r.root_cause().error_type, Source::Authentication(AuthenticationError::InsufficientPermissions));
}
