use crate::db::sessions::spec_session_from_claims;
use jsonwebtoken::{decode, encode, Algorithm, DecodingKey, EncodingKey, Header, Validation};
use std::collections::HashSet;
use crate::models::session::Session;
use crate::store::Store;
use crate::types::{res_v, AppError, AppErrorV, Claims};
use vstd::prelude::*;

verus! {

/// The signed bearer token that the configured secret produces for the given
/// claims. The token is a pure function of the secret and the claims; what it
/// looks like is the signer's business and is never stated here.
pub uninterp spec fn token_of(secret: Seq<u8>, sub: Seq<char>, jti: Seq<char>, exp: int) -> Seq<
    char,
>;

/// The signing and verification material: the symmetric secret, held as plain
/// bytes so that contracts can speak about it.
pub struct Keys {
    secret: Vec<u8>,
}

impl Keys {
    pub closed spec fn spec_secret(&self) -> Seq<u8> {
        self.secret@
    }

    pub fn new(secret: &[u8]) -> (r: Self)
        ensures
            r.spec_secret() == secret@,
    {
        Keys { secret: vstd::slice::slice_to_vec(secret) }
    }
}

/// Relies on `jsonwebtoken::encode` with HS256: signing is deterministic, so
/// the token is a function of the secret and the claims alone; a failure can
/// only be a signer-internal one.
#[verifier::external_body]
pub(crate) fn encode_jwt(claims: &Claims, keys: &Keys) -> (r: Result<String, AppError>)
    ensures
        r matches Ok(t) ==> t@ == token_of(keys.spec_secret(), claims.sub@, claims.jti@, claims.exp as int),
        r matches Err(e) ==> e is TokenCreation,
{
    let header = Header::new(Algorithm::HS256);
    let mut m = serde_json::Map::new();
    m.insert("sub".to_string(), serde_json::Value::String(claims.sub.clone()));
    m.insert("jti".to_string(), serde_json::Value::String(claims.jti.clone()));
    m.insert("exp".to_string(), serde_json::Value::from(claims.exp));
    let key = EncodingKey::from_secret(keys.secret.as_slice());
    encode(&header, &serde_json::Value::Object(m), &key).map_err(|_| AppError::TokenCreation)
}

/// What decoding promises: a token that the secret signed over `{sub, jti,
/// exp}` comes back as exactly those claims.
pub open spec fn decode_post(r: Result<Claims, AppError>, token: Seq<char>, secret: Seq<u8>) -> bool {
    forall|s: Seq<char>, j: Seq<char>, e: int|
        token == #[trigger] token_of(secret, s, j, e) ==> (r matches Ok(c) && c.sub@ == s
            && c.jti@ == j && c.exp as int == e)
}

/// Relies on `jsonwebtoken::decode` with HS256 and signature-only validation:
/// a token that the same secret signed over `{sub, jti, exp}` decodes back to
/// exactly those claims. Expiry is not checked here — the live session row is
/// the authoritative check — and nothing is promised about other inputs
/// beyond the error variant.
#[verifier::external_body]
pub(crate) fn decode_jwt(token: &str, keys: &Keys) -> (r: Result<Claims, AppError>)
    ensures
        decode_post(r, token@, keys.spec_secret()),
        r matches Err(err) ==> err is InvalidToken,
{
    let mut v = Validation::new(Algorithm::HS256);
    v.validate_exp = false;
    v.required_spec_claims = HashSet::new();
    let key = DecodingKey::from_secret(keys.secret.as_slice());
    let d = decode::<serde_json::Value>(token, &key, &v).map_err(|_| AppError::InvalidToken)?;
    let c = &d.claims;
    match (c.get("sub").and_then(|x| x.as_str()), c.get("jti").and_then(|x| x.as_str()), c.get("exp").and_then(|x| x.as_i64())) {
        (Some(s), Some(j), Some(e)) => Ok(Claims { sub: s.to_string(), jti: j.to_string(), exp: e }),
        _ => Err(AppError::InvalidToken),
    }
}

/// Decodes a bearer token against the verification key. A token the secret
/// once signed comes back as its exact claims; any failure is reported as an
/// invalid token.
pub fn decode_claims(token: &str, keys: &Keys) -> (r: Result<Claims, AppError>)
    ensures
        decode_post(r, token@, keys.spec_secret()),
        r matches Err(err) ==> err is InvalidToken,
{
    decode_jwt(token, keys)
}

impl Claims {
    /// The claims a session is issued under: the session's user as subject,
    /// its id as token id, its expiry as `exp`.
    pub fn from_session(session: &Session) -> (r: Self)
        ensures
            r.sub@ == session@.user_id,
            r.jti@ == session@.id,
            r.exp as int == session@.expires,
    {
        Self {
            sub: session.user_id.clone(),
            jti: session.id.clone(),
            exp: session.expires,
        }
    }

    /// Signs these claims into a bearer token.
    pub fn to_token(self, keys: &Keys) -> (r: Result<String, AppError>)
        ensures
            r matches Ok(t) ==> t@ == token_of(keys.spec_secret(), self.sub@, self.jti@, self.exp as int),
            r matches Err(e) ==> e is TokenCreation,
    {
        encode_jwt(&self, keys)
    }
}

/// The per-request authorization check: decode the bearer token, then hold
/// its claims against the live session table. Whatever the decoder returned,
/// an authorized result is always a session that exists in the store and is
/// not past its expiry; for a token the secret signed, the outcome is exactly
/// what the session table says — missing row, expired row, or the session.
pub fn authenticate(store: &Store, token: &str, keys: &Keys, now: i64) -> (r: Result<
    Session,
    AppError,
>)
    requires
        store@.wf(),
    ensures
        r matches Ok(sess) ==> store@.has_session_claim(sess@.id, sess@.user_id)
            && store@.sessions[store@.session_idx_by_claim(sess@.id, sess@.user_id)] == sess@
            && sess@.expires > now as int,
        forall|s: Seq<char>, j: Seq<char>, e: int|
            token@ == #[trigger] token_of(keys.spec_secret(), s, j, e) ==> res_v(r)
                == spec_session_from_claims(
                store@,
                crate::types::ClaimsV { sub: s, jti: j, exp: e },
                now as int,
            ),
        r matches Err(err) ==> (err is InvalidToken || err is ExpiredToken),
{
    let claims = match decode_claims(token, keys) {
        Err(e) => {
            return Err(e);
        },
        Ok(c) => c,
    };
    crate::db::sessions::session_from_claims(store, claims, now)
}

} // verus!
