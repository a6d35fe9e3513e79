use vstd::prelude::*;

use jsonwebtoken::errors::Error as JwtError;
use jsonwebtoken::jwk::{Jwk, JwkSet};
use jsonwebtoken::{Algorithm, DecodingKey, Validation};
use jsonwebtoken::errors::Error as JwtErr;
use jsonwebtoken::AlgorithmFamily;
use serde_json::Value;

use crate::id::{uuid_text_bytes, uuid_try_parse, Uid};
use crate::error::{
    jwt_error_spec, jwt_failure_of, single_error, wrapped_error, AuthenticationError, Error,
    ErrorResponse, JwtFailure, Source,
};

verus! {

#[verifier::external_type_specification]
#[verifier::external_body]
pub struct ExJwkSet(JwkSet);

#[verifier::external_type_specification]
#[verifier::external_body]
pub struct ExJwk(Jwk);

#[verifier::external_type_specification]
#[verifier::external_body]
pub struct ExDecodingKey(DecodingKey);

#[verifier::external_type_specification]
#[verifier::external_body]
pub struct ExValidation(Validation);

#[verifier::external_type_specification]
#[verifier::external_body]
pub struct ExAlgorithm(Algorithm);

#[verifier::external_type_specification]
#[verifier::external_body]
pub struct ExJsonValue(Value);

/// The audiences a token must be issued for.
pub const AUTHENTICATED_AUDIENCE: [&'static str; 1] = ["authenticated"];

/// The issuers a token must come from.
pub const ISSUER: [&'static str; 1] = ["https://tfhmghtvgexflhdwcrer.supabase.co/auth/v1"];

/// What `jsonwebtoken::decode_header` reads from a token: `None` where it
/// fails, else the key id the header names, if any.
pub uninterp spec fn jwt_header_kid(token: Seq<char>) -> Option<Option<Seq<char>>>;

/// The algorithm the header of a token names, as `jsonwebtoken::decode_header`
/// reads it.
pub uninterp spec fn jwt_header_alg(token: Seq<char>) -> Algorithm;

/// Whether a failure is one that reading a token's header can report: a
/// token not made of three parts, a part that is not base64, or a header
/// that is not the JSON of a header.
pub open spec fn header_failure(f: JwtFailure) -> bool {
    f is InvalidToken || f is Base64 || f is Json
}

/// The keys of a set, in order (`JwkSet::keys`).
pub uninterp spec fn jwk_keys(set: JwkSet) -> Seq<Jwk>;

/// The key id of a key (`common.key_id`), if it has one.
pub uninterp spec fn jwk_id(jwk: Jwk) -> Option<Seq<char>>;

/// What `DecodingKey::from_jwk` makes of a key: the decoding key, or the
/// failure it reports.
pub uninterp spec fn jwk_decoding_key(jwk: Jwk) -> Result<DecodingKey, JwtFailure>;

/// The number of bytes of a decoding key of the Edwards-curve family
/// (`DecodingKey::as_bytes`); `None` for a key of another family.
pub uninterp spec fn ed_key_len(key: DecodingKey) -> Option<nat>;

/// The algorithms a validation allows (`Validation::algorithms`).
pub uninterp spec fn validation_algorithms(v: Validation) -> Seq<Algorithm>;

/// The audiences a validation requires (`Validation::aud`), if any.
pub uninterp spec fn validation_audiences(v: Validation) -> Option<Set<Seq<char>>>;

/// The issuers a validation requires (`Validation::iss`), if any.
pub uninterp spec fn validation_issuers(v: Validation) -> Option<Set<Seq<char>>>;

/// Whether a validation keeps the settings `Validation::new` gives, but
/// for its algorithms, audiences and issuers: the signature is checked, an
/// `exp` claim is required and checked against the clock with a leeway of
/// 60 seconds, the audience is checked, and neither `nbf` nor the subject
/// is checked.
pub uninterp spec fn validation_defaults(v: Validation) -> bool;

/// Whether `jsonwebtoken::decode` accepts a token under a key and a
/// validation in every check that does not read the clock: the token's
/// shape, its header's algorithm among those allowed, its signature under
/// the key, its claims (readable, with those the validation requires
/// present and well-formed), its issuer and its audience.
pub uninterp spec fn jwt_accepted(token: Seq<char>, key: DecodingKey, v: Validation) -> bool;

/// The claims of a token: the JSON value its payload part (base64url
/// decoded) holds.
pub uninterp spec fn jwt_claims(token: Seq<char>) -> Value;

/// The string at key `name` of a JSON object; `None` where the value is not
/// an object, has no such key, or holds something else than a string there.
pub uninterp spec fn json_str_field(v: Value, name: Seq<char>) -> Option<Seq<char>>;

/// The user a token is about: the identifier its `sub` claim spells as a
/// UUID text, if it does.
pub open spec fn jwt_subject(token: Seq<char>) -> Option<Seq<u8>> {
    match json_str_field(jwt_claims(token), "sub"@) {
        Some(text) => uuid_text_bytes(text),
        None => None,
    }
}

/// The role a token gives its user: its `role` claim, if it is a string.
pub open spec fn jwt_role(token: Seq<char>) -> Option<Seq<char>> {
    json_str_field(jwt_claims(token), "role"@)
}

/// The claims of a verified token that the backend reads: the user it is
/// about and their role.
pub struct Claims {
    pub sub: Uid,
    pub role: String,
}

/// The texts of a list of strings, as a set.
pub open spec fn text_set(items: Seq<&str>) -> Set<Seq<char>> {
    Set::new(|t: Seq<char>| exists|i: int| 0 <= i < items.len() && (#[trigger] items[i])@ == t)
}

/// Whether the key at position `i` of a set is the first with id `kid`.
pub open spec fn first_key_at(set: JwkSet, kid: Seq<char>, i: int) -> bool {
    &&& 0 <= i < jwk_keys(set).len()
    &&& jwk_id(jwk_keys(set)[i]) == Some(kid)
    &&& forall|j: int| 0 <= j < i ==> jwk_id(#[trigger] jwk_keys(set)[j]) != Some(kid)
}

/// Whether some key of the set has the given key id.
pub open spec fn has_key(set: JwkSet, kid: Seq<char>) -> bool {
    exists|i: int| 0 <= i < jwk_keys(set).len() && jwk_id(#[trigger] jwk_keys(set)[i]) == Some(kid)
}

/// The first key of a set with the given key id.
pub open spec fn key_for(set: JwkSet, kid: Seq<char>) -> Jwk {
    jwk_keys(set)[choose|i: int| first_key_at(set, kid, i)]
}

/// Calls `jsonwebtoken::decode_header` and hands out the header's key id
/// and algorithm. Whether it succeeds and the key id are named
/// `jwt_header_kid`, the algorithm `jwt_header_alg`. It fails only on a
/// token that is not three dot-separated parts, whose header part is not
/// base64 or whose header is not JSON.
#[verifier::external_body]
fn decode_header(token: &str) -> (res: Result<(Option<String>, Algorithm), JwtErr>)
    ensures
        res matches Err(e) ==> jwt_header_kid(token@) is None && header_failure(jwt_failure_of(e)),
        res matches Ok((kid, alg)) ==> (jwt_header_kid(token@) matches Some(named) && (kid matches Some(
            k,
        ) ==> named == Some(k@)) && (kid is None ==> named is None)) && alg == jwt_header_alg(
            token@,
        ),
{
    jsonwebtoken::decode_header(token).map(|header| (header.kid, header.alg))
}

/// Calls `JwkSet::find`: the first key of the set (in the order of
/// `keys`) whose key id is `kid`, if there is one.
#[verifier::external_body]
fn find_key<'a>(set: &'a JwkSet, kid: &str) -> (res: Option<&'a Jwk>)
    ensures
        res matches Some(k) ==> jwk_id(*k) == Some(kid@) && has_key(*set, kid@) && *k == key_for(
            *set,
            kid@,
        ),
        res is None ==> forall|i: int|
            0 <= i < jwk_keys(*set).len() ==> jwk_id(#[trigger] jwk_keys(*set)[i]) != Some(kid@),
{
    set.find(kid)
}

/// Calls `DecodingKey::try_from` on a key, which is `DecodingKey::from_jwk`.
/// What it makes of the key is named `jwk_decoding_key`.
#[verifier::external_body]
fn decoding_key(jwk: &Jwk) -> (res: Result<DecodingKey, JwtErr>)
    ensures
        match res {
            Ok(k) => jwk_decoding_key(*jwk) == Ok::<DecodingKey, JwtFailure>(k),
            Err(e) => jwk_decoding_key(*jwk) == Err::<DecodingKey, JwtFailure>(jwt_failure_of(e)),
        },
{
    DecodingKey::try_from(jwk)
}

/// Reads the family of a decoding key (`DecodingKey::family`) and, for the
/// Edwards-curve family, the number of its bytes (`as_bytes().len()`).
#[verifier::external_body]
fn ed_key_length(key: &DecodingKey) -> (res: Option<usize>)
    ensures
        match res {
            Some(n) => ed_key_len(*key) == Some(n as nat),
            None => ed_key_len(*key) is None,
        },
{
    match key.family() {
        AlgorithmFamily::Ed => Some(key.as_bytes().len()),
        AlgorithmFamily::Hmac => None,
        AlgorithmFamily::Rsa => None,
        AlgorithmFamily::Ec => None,
    }
}

/// Calls `Validation::new`: a validation that allows only `alg`, requires
/// no audience and no issuer, and has the default settings (the signature
/// checked, an `exp` claim required and checked, the audience checked).
#[verifier::external_body]
fn validation_for(alg: Algorithm) -> (res: Validation)
    ensures
        validation_defaults(res),
        validation_algorithms(res) == seq![alg],
        validation_audiences(res) is None,
        validation_issuers(res) is None,
{
    Validation::new(alg)
}

/// Calls `Validation::set_audience`: the validation then requires one of
/// the given audiences, and nothing else of it changes.
#[verifier::external_body]
fn set_audience(validation: &mut Validation, audiences: &[&str])
    ensures
        validation_audiences(*final(validation)) == Some(text_set(audiences@)),
        validation_defaults(*final(validation)) == validation_defaults(*old(validation)),
        validation_issuers(*final(validation)) == validation_issuers(*old(validation)),
        validation_algorithms(*final(validation)) == validation_algorithms(*old(validation)),
{
    validation.set_audience(audiences)
}

/// Calls `Validation::set_issuer`: the validation then requires one of the
/// given issuers, and nothing else of it changes.
#[verifier::external_body]
fn set_issuer(validation: &mut Validation, issuers: &[&str])
    ensures
        validation_issuers(*final(validation)) == Some(text_set(issuers@)),
        validation_defaults(*final(validation)) == validation_defaults(*old(validation)),
        validation_audiences(*final(validation)) == validation_audiences(*old(validation)),
        validation_algorithms(*final(validation)) == validation_algorithms(*old(validation)),
{
    validation.set_issuer(issuers)
}

/// Calls `jsonwebtoken::decode`, reading the claims as a JSON value. It
/// panics on an Edwards-curve key of fewer than 32 bytes met by an `EdDSA`
/// header, which `requires` leaves out. Its outcome also depends on the
/// clock (the `exp` claim), so no clause says when it succeeds; where it
/// does, the token passed every check that does not read the clock, and the
/// claims are the token's; and a token that passes every check that does
/// not read the clock, under a validation with the default settings, is
/// refused only as expired (the one check that reads the clock, as `nbf`
/// is not checked). It reads the clock with `SystemTime::now`, which
/// panics on a clock set before 1970.
#[verifier::external_body]
fn decode_claims(token: &str, key: &DecodingKey, validation: &Validation) -> (res: Result<
    Value,
    JwtErr,
>)
    requires
        !(ed_key_len(*key) matches Some(n) && n < 32),
    ensures
        res matches Ok(claims) ==> jwt_accepted(token@, *key, *validation) && claims == jwt_claims(
            token@,
        ),
        res matches Err(e) ==> (jwt_accepted(token@, *key, *validation) && validation_defaults(
            *validation,
        ) ==> jwt_failure_of(e) == JwtFailure::ExpiredSignature),
{
    jsonwebtoken::decode::<Value>(token, key, validation).map(|data| data.claims)
}

/// Calls `Value::get` and `Value::as_str`: the string at key `name` of a
/// JSON object, if there is one.
#[verifier::external_body]
fn str_field(v: &Value, name: &str) -> (res: Option<String>)
    ensures
        match res {
            Some(text) => json_str_field(*v, name@) == Some(text@),
            None => json_str_field(*v, name@) is None,
        },
{
    v.get(name).and_then(Value::as_str).map(String::from)
}

/// The user and role that decoded claims give: the `sub` claim read as the
/// text of a UUID and the `role` claim as a string, where both are there.
pub open spec fn claims_of(v: Value) -> Option<(Seq<u8>, Seq<char>)> {
    match (json_str_field(v, "sub"@), json_str_field(v, "role"@)) {
        (Some(sub), Some(role)) => match uuid_text_bytes(sub) {
            Some(bytes) => Some((bytes, role)),
            None => None,
        },
        _ => None,
    }
}

/// The outcome of authentication, given what decoding the token gave: the
/// decoded claims, or the failure the token library reported. Claims
/// without a UUID `sub` or a string `role` are refused as claims that could
/// not be read; every failure is wrapped in "Authentication failed".
pub fn claims_outcome(decoded: Result<Value, JwtFailure>) -> (res: Result<Claims, ErrorResponse>)
    ensures
        match decoded {
            Ok(v) => match claims_of(v) {
                Some((sub, role)) => res matches Ok(c) && c.sub.bytes@ == sub && c.role@ == role,
                None => res matches Err(r) && wrapped_error(
                    r,
                    "Authentication failed"@,
                    |s: Source| s is Authentication,
                ) && (r.root().error_type, r.root().message@) == jwt_error_spec(JwtFailure::Json),
            },
            Err(f) => res matches Err(r) && wrapped_error(
                r,
                "Authentication failed"@,
                |s: Source| s is Authentication,
            ) && (r.root().error_type, r.root().message@) == jwt_error_spec(f),
        },
{
    let failure = match decoded {
        Ok(claims) => {
            let sub = match str_field(&claims, "sub") {
                Some(text) => uuid_try_parse(text.as_str()),
                None => None,
            };
            match (sub, str_field(&claims, "role")) {
                (Some(bytes), Some(role)) => {
                    return Ok(Claims { sub: Uid { bytes }, role });
                },
                _ => JwtFailure::Json,
            }
        },
        Err(f) => f,
    };
    let r = ErrorResponse::new(Error::from_jwt(&failure)).raise(
        Error::upstream(String::from_str("Authentication failed")),
    );
    assert((r.root().error_type, r.root().message@) == jwt_error_spec(failure));
    Err(r)
}

/// What authentication may answer for a token that passes every check of
/// the token library that does not read the clock: the user and role its
/// claims give, whatever the role; or, refused, either as expired (the
/// check that reads the clock) or, where its claims give no user and role,
/// as a token whose claims cannot be read.
pub open spec fn accepted_answer(res: Result<Claims, ErrorResponse>, token: Seq<char>) -> bool {
    match res {
        Ok(c) => claims_of(jwt_claims(token)) == Some((c.sub.bytes@, c.role@)),
        Err(r) => (r.root().error_type, r.root().message@) == jwt_error_spec(
            JwtFailure::ExpiredSignature,
        ) || (claims_of(jwt_claims(token)) is None && (r.root().error_type, r.root().message@)
            == jwt_error_spec(JwtFailure::Json)),
    }
}

/// Whether a validation checks the signature under exactly the algorithm
/// `alg`, requires an unexpired `exp` claim, and requires the authenticated
/// audience and the trusted issuer.
pub open spec fn checks_for(v: Validation, alg: Algorithm) -> bool {
    &&& validation_defaults(v)
    &&& validation_algorithms(v) == seq![alg]
    &&& validation_audiences(v) == Some(text_set(AUTHENTICATED_AUDIENCE@))
    &&& validation_issuers(v) == Some(text_set(ISSUER@))
}

/// Checks a token against the keys of the issuer and hands out the user it
/// is about and their role.
/// The token's header must name the id of one of the keys; the token must
/// be signed with the first key of that id, under the algorithm its header
/// names, issued by the trusted issuer for the authenticated audience, and
/// be within its validity period (which reads the clock, so no clause
/// says when it succeeds). Its `sub` claim must be the text of a UUID and
/// its `role` claim a string; a token without them is refused as one whose
/// claims cannot be read. The claims are read once the token library has
/// accepted the token, so a token that fails one of its checks and also
/// lacks such claims is reported by the failed check.
pub fn authenticate(token: &str, keys: &JwkSet) -> (res: Result<Claims, ErrorResponse>)
    ensures
        match jwt_header_kid(token@) {
            None => res matches Err(r) && wrapped_error(
                r,
                "Could not decode token"@,
                |s: Source| s is Authentication,
            ) && r.root().error_type == Source::Authentication(AuthenticationError::InvalidFormat)
                && r.root().message@ == "JWT could not be decoded or deserialized"@,
            Some(None) => res matches Err(r) && single_error(
                r,
                Source::Authentication(AuthenticationError::InvalidClaim),
                "JWT does not contain a kid claim"@,
            ),
            Some(Some(kid)) => if !has_key(*keys, kid) {
                res matches Err(r) && single_error(
                    r,
                    Source::Authentication(AuthenticationError::NoMatchingKey),
                    "No matching jwk found for the kiven kid. Your JWT might be outdated or the issuer might have outdated keys."@,
                )
            } else {
                match jwk_decoding_key(key_for(*keys, kid)) {
                    Err(f) => res matches Err(r) && wrapped_error(
                        r,
                        "Could not convert JWK into decoding key"@,
                        |s: Source| s is Authentication,
                    ) && (r.root().error_type, r.root().message@) == jwt_error_spec(f),
                    Ok(key) => if ed_key_len(key) matches Some(n) && n < 32 {
                        res matches Err(r) && wrapped_error(
                            r,
                            "Authentication failed"@,
                            |s: Source| s is Authentication,
                        ) && (r.root().error_type, r.root().message@) == jwt_error_spec(
                            JwtFailure::InvalidKeyFormat,
                        )
                    } else {
                        &&& res matches Ok(claims) ==> (exists|v: Validation|
                            checks_for(v, jwt_header_alg(token@)) && #[trigger] jwt_accepted(
                                token@,
                                key,
                                v,
                            )) && jwt_subject(token@) == Some(claims.sub.bytes@) && jwt_role(token@)
                                == Some(claims.role@)
                        &&& res matches Err(r) ==> wrapped_error(
                            r,
                            "Authentication failed"@,
                            |s: Source| s is Authentication,
                        ) && exists|f: JwtFailure|
                            (r.root().error_type, r.root().message@) == #[trigger] jwt_error_spec(f)
                        &&& exists|v: Validation|
                            #[trigger] checks_for(v, jwt_header_alg(token@)) && (jwt_accepted(
                                token@,
                                key,
                                v,
                            ) ==> accepted_answer(res, token@))
                    },
                }
            },
        },
{
    let (kid, alg) = match decode_header(token) {
        Ok(parts) => parts,
        Err(e) => {
            return Err(ErrorResponse::new(Error::from_jwt_error(&e)).raise(
                Error::upstream(String::from_str("Could not decode token")),
            ));
        },
    };
    let kid = match kid {
        Some(kid) => kid,
        None => {
            return Err(ErrorResponse::new(Error::authentication(
                AuthenticationError::InvalidClaim,
                String::from_str("JWT does not contain a kid claim"),
            )));
        },
    };
    let jwk = match find_key(keys, kid.as_str()) {
        Some(jwk) => jwk,
        None => {
            return Err(ErrorResponse::new(Error::authentication(
                AuthenticationError::NoMatchingKey,
                String::from_str(
                    "No matching jwk found for the kiven kid. Your JWT might be outdated or the issuer might have outdated keys.",
                ),
            )));
        },
    };
    let key = match decoding_key(jwk) {
        Ok(key) => key,
        Err(e) => {
            return Err(ErrorResponse::new(Error::from_jwt_error(&e)).raise(
                Error::upstream(String::from_str("Could not convert JWK into decoding key")),
            ));
        },
    };
    // An Edwards-curve key shorter than 32 bytes cannot verify anything; it
    // is refused as a key of the wrong format.
    match ed_key_length(&key) {
        Some(n) => if n < 32 {
            return Err(ErrorResponse::new(Error::from_jwt(&JwtFailure::InvalidKeyFormat)).raise(
                Error::upstream(String::from_str("Authentication failed")),
            ));
        },
        None => {},
    }
    let mut validation = validation_for(alg);
    set_audience(&mut validation, &AUTHENTICATED_AUDIENCE);
    set_issuer(&mut validation, &ISSUER);
    let decoded = match decode_claims(token, &key, &validation) {
        Ok(claims) => Ok(claims),
        Err(e) => Err(JwtFailure::from_jwt_error(&e)),
    };
    assert(checks_for(validation, jwt_header_alg(token@)));
    let res = claims_outcome(decoded);
    assert(jwt_accepted(token@, key, validation) ==> accepted_answer(res, token@));
    res
}

} // verus!
