//! Bearer-token authentication: minting tokens, the hash that is stored in
//! their place, reading the `Authorization` header, and the answers a
//! request gets when it cannot be authenticated. Looking a hash up is the
//! server's database work; what its answer means is decided here.
use vstd::prelude::*;
use vstd::string::StringSliceAdditionalSpecFns;
use crate::text::{
    chars_of, is_ws, lemma_trim_unchanged, own, starts_with, string_from, trim, trimmed, vec_starts_with,
};

verus! {

/// Prefix of every minted token, so the credential is recognisable.
pub const TOKEN_PREFIX: &'static str = "mnem_";

/// Random bytes in a token.
pub const TOKEN_BYTES: usize = 32;

/// Variable holding the operator token that guards user administration.
pub const ADMIN_TOKEN_ENV: &'static str = "MNEMOSYNE_ADMIN_TOKEN";

// ---------------------------------------------------------------------------
// Hex, hashing, randomness
// ---------------------------------------------------------------------------

/// A lower-case hexadecimal digit.
pub open spec fn hex_lower_digit(d: u8) -> char {
    if d < 10 {
        ((d + 48) as u8) as char
    } else {
        ((d + 87) as u8) as char
    }
}

/// Two lower-case hexadecimal digits per byte, in order.
pub open spec fn hex_lower(b: Seq<u8>) -> Seq<char>
    decreases b.len(),
{
    if b.len() == 0 {
        Seq::empty()
    } else {
        hex_lower(b.drop_last()) + seq![hex_lower_digit(b.last() / 16), hex_lower_digit(b.last() % 16)]
    }
}

pub proof fn lemma_hex_lower_len(b: Seq<u8>)
    ensures
        hex_lower(b).len() == 2 * b.len(),
    decreases b.len(),
{
    if b.len() > 0 {
        lemma_hex_lower_len(b.drop_last());
    }
}

/// `hex::encode`: two lower-case hexadecimal digits per byte, in order.
#[verifier::external_body]
fn hex_encode(bytes: &[u8]) -> (s: String)
    ensures
        s@ == hex_lower(bytes@),
{
    hex::encode(bytes)
}

/// The SHA-256 digest of a byte string.
pub uninterp spec fn sha256(data: Seq<u8>) -> Seq<u8>;

/// `sha2::Sha256::digest`: the 32-byte SHA-256 digest of `data`.
#[verifier::external_body]
fn sha256_digest(data: &[u8]) -> (d: Vec<u8>)
    ensures
        d@ == sha256(data@),
        d@.len() == 32,
{
    <sha2::Sha256 as sha2::Digest>::digest(data).to_vec()
}

/// `rand::RngCore::fill_bytes` on `rand::rng()`, the thread-local
/// generator seeded from the operating system: `n` bytes. Nothing is said of
/// their values, which are chance.
#[verifier::external_body]
fn random_bytes(n: usize) -> (b: Vec<u8>)
    ensures
        b@.len() == n,
{
    let mut buf = vec![0u8; n];
    rand::RngCore::fill_bytes(&mut rand::rng(), &mut buf);
    buf
}

/// A token as minted from `bytes`: the prefix, then the bytes in hex.
pub open spec fn token_from_bytes(bytes: Seq<u8>) -> Seq<char> {
    "mnem_"@ + hex_lower(bytes)
}

/// The token minted from `bytes`: the prefix, then the bytes in lower-case
/// hex.
pub fn token_from(bytes: &[u8]) -> (t: String)
    requires
        bytes@.len() == TOKEN_BYTES,
    ensures
        t@ == token_from_bytes(bytes@),
        t@.len() == 5 + 2 * TOKEN_BYTES,
{
    let hex = hex_encode(bytes);
    let mut t = String::new();
    t.push_str(TOKEN_PREFIX);
    t.push_str(hex.as_str());
    proof {
        reveal_strlit("mnem_");
        lemma_hex_lower_len(bytes@);
        assert(token_from_bytes(bytes@) == t@);
    }
    t
}

/// Mint a new token from 32 fresh random bytes. It is shown once; only its
/// hash is kept. Which bytes are drawn is chance; the token is
/// `token_from` of them.
pub fn generate_token() -> (t: String)
    ensures
        exists|b: Seq<u8>| b.len() == TOKEN_BYTES && #[trigger] token_from_bytes(b) == t@,
        t@.len() == 5 + 2 * TOKEN_BYTES,
{
    let bytes = random_bytes(TOKEN_BYTES);
    token_from(bytes.as_slice())
}

/// What is stored for a token: the hex SHA-256 of its UTF-8 bytes.
pub open spec fn stored_hash(token: &str) -> Seq<char> {
    hex_lower(sha256(token.spec_bytes()))
}

pub fn hash_token(token: &str) -> (h: String)
    ensures
        h@ == stored_hash(token),
        h@.len() == 64,
{
    let digest = sha256_digest(token.as_bytes());
    let h = hex_encode(digest.as_slice());
    proof {
        lemma_hex_lower_len(digest@);
    }
    h
}

// ---------------------------------------------------------------------------
// Comparing secrets
// ---------------------------------------------------------------------------

/// Byte equality that looks at every byte whatever it finds, so the time
/// taken does not say where two secrets first differ.
pub fn constant_time_eq(a: &[u8], b: &[u8]) -> (r: bool)
    ensures
        r == (a@ == b@),
{
    if a.len() != b.len() {
        return false;
    }
    let mut acc: u8 = 0;
    let mut i: usize = 0;
    while i < a.len()
        invariant
            a@.len() == b@.len(),
            i <= a@.len(),
            (acc == 0) == (forall|k: int| 0 <= k < i ==> a@[k] == b@[k]),
        decreases a@.len() - i,
    {
        let x = a[i];
        let y = b[i];
        let next = acc | (x ^ y);
        assert(next == 0 <==> (acc == 0 && x == y)) by (bit_vector)
            requires
                next == acc | (x ^ y),
        ;
        proof {
            if next == 0 {
                assert forall|k: int| 0 <= k < i + 1 implies a@[k] == b@[k] by {
                    if k < i {
                    } else {
                        assert(a@[k] == x);
                    }
                }
            } else if acc == 0 {
                assert(a@[i as int] != b@[i as int]);
            }
        }
        acc = next;
        i = i + 1;
    }
    proof {
        if acc == 0 {
            assert(a@ =~= b@);
        }
    }
    acc == 0
}

// ---------------------------------------------------------------------------
// Reading the header, and the refusals
// ---------------------------------------------------------------------------

#[derive(Debug)]
pub enum AuthError {
    /// No usable `Authorization: Bearer ...` header.
    Missing,
    /// A token was given but matches nothing.
    Invalid,
    /// The credential could not be checked at all. Never reported as an
    /// invalid token: that would blame the learner for an outage.
    Backend(String),
}

pub open spec fn auth_error_text(e: AuthError) -> Seq<char> {
    match e {
        AuthError::Missing => "missing Authorization: Bearer <token> header"@,
        AuthError::Invalid => "invalid or revoked token"@,
        AuthError::Backend(m) => "could not verify token: "@ + m@,
    }
}

impl AuthError {
    pub fn message(&self) -> (s: String)
        ensures
            s@ == auth_error_text(*self),
    {
        match self {
            AuthError::Missing => own("missing Authorization: Bearer <token> header"),
            AuthError::Invalid => own("invalid or revoked token"),
            AuthError::Backend(m) => {
                let mut s = String::new();
                s.push_str("could not verify token: ");
                s.push_str(m.as_str());
                proof {
                    assert(s@ =~= auth_error_text(*self));
                }
                s
            },
        }
    }

    /// 503 when the check could not be made, 401 otherwise.
    pub fn status(&self) -> (s: u16)
        ensures
            s == (if *self is Backend {
                503u16
            } else {
                401u16
            }),
    {
        match self {
            AuthError::Backend(_) => 503,
            _ => 401,
        }
    }

    /// Whether the answer challenges the client with `WWW-Authenticate:
    /// Bearer`: every refusal of a credential does, an outage does not.
    pub fn challenges(&self) -> (b: bool)
        ensures
            b == !(*self is Backend),
    {
        match self {
            AuthError::Backend(_) => false,
            _ => true,
        }
    }
}

/// The token an `Authorization` header carries: after `Bearer ` or
/// `bearer ` (one space), trimmed, and only when something is left.
pub open spec fn bearer_spec(header: Option<Seq<char>>) -> Option<Seq<char>> {
    match header {
        None => None,
        Some(v) => if starts_with(v, "Bearer "@) || starts_with(v, "bearer "@) {
            let t = trim(v.skip(7));
            if t.len() == 0 {
                None
            } else {
                Some(t)
            }
        } else {
            None
        },
    }
}

/// The token is everything after `Bearer ` (or `bearer `), trimmed and
/// whole, whatever its length: nothing of it is cut or added.
pub proof fn law_bearer_reads_the_whole_token(t: Seq<char>)
    requires
        trim(t).len() > 0,
    ensures
        bearer_spec(Some("Bearer "@ + t)) == Some(trim(t)),
        bearer_spec(Some("bearer "@ + t)) == Some(trim(t)),
{
    reveal_strlit("Bearer ");
    reveal_strlit("bearer ");
    assert(("Bearer "@ + t).take(7) =~= "Bearer "@);
    assert(("Bearer "@ + t).skip(7) =~= t);
    assert(("bearer "@ + t).take(7) =~= "bearer "@);
    assert(("bearer "@ + t).skip(7) =~= t);
}

proof fn lemma_hex_lower_no_ws(b: Seq<u8>)
    ensures
        forall|i: int| 0 <= i < hex_lower(b).len() ==> !is_ws(#[trigger] hex_lower(b)[i]),
    decreases b.len(),
{
    lemma_hex_lower_len(b);
    if b.len() > 0 {
        lemma_hex_lower_no_ws(b.drop_last());
        lemma_hex_lower_len(b.drop_last());
        let h = hex_lower(b);
        let p = hex_lower(b.drop_last());
        assert forall|i: int| 0 <= i < h.len() implies !is_ws(#[trigger] h[i]) by {
            if i < p.len() {
                assert(h[i] == p[i]);
            } else {
                let d: u8 = if i == p.len() { b.last() / 16 } else { b.last() % 16 };
                assert(h[i] == hex_lower_digit(d));
            }
        }
    }
}

/// A minted token, sent back as `Bearer <token>`, is read back unchanged.
pub proof fn law_minted_token_reads_back(b: Seq<u8>)
    ensures
        bearer_spec(Some("Bearer "@ + token_from_bytes(b))) == Some(token_from_bytes(b)),
{
    reveal_strlit("mnem_");
    let t = token_from_bytes(b);
    lemma_hex_lower_no_ws(b);
    assert forall|i: int| 0 <= i < t.len() implies !is_ws(#[trigger] t[i]) by {
        if i >= 5 {
            assert(t[i] == hex_lower(b)[i - 5]);
        }
    }
    lemma_trim_unchanged(t);
    law_bearer_reads_the_whole_token(t);
}

pub fn bearer_token(header: Option<&str>) -> (t: Option<String>)
    ensures
        match bearer_spec(
            match header {
                Some(h) => Some(h@),
                None => None,
            },
        ) {
            Some(s) => t matches Some(x) && x@ == s,
            None => t is None,
        },
{
    let h = match header {
        Some(h) => h,
        None => return None,
    };
    let v = chars_of(h);
    proof {
        reveal_strlit("Bearer ");
        reveal_strlit("bearer ");
    }
    if !(vec_starts_with(&v, 0, v.len(), "Bearer ") || vec_starts_with(&v, 0, v.len(), "bearer ")) {
        proof {
            assert(v@.subrange(0, v@.len() as int) =~= h@);
        }
        return None;
    }
    proof {
        assert(v@.subrange(0, v@.len() as int) =~= h@);
    }
    let rest = string_from(&v, 7, v.len());
    let t = trimmed(rest.as_str());
    proof {
        assert(rest@ =~= h@.skip(7));
    }
    if t.as_str().is_empty() {
        None
    } else {
        Some(t)
    }
}

/// Whose token it was, from the hash lookup: `Ok(Some(user))` found,
/// `Ok(None)` matched nothing, `Err` the lookup itself failed.
pub fn authenticated(lookup: Result<Option<u128>, String>) -> (r: Result<u128, AuthError>)
    ensures
        lookup matches Ok(Some(u)) ==> r == Ok::<u128, AuthError>(u),
        lookup matches Ok(None) ==> (r matches Err(AuthError::Invalid)),
        lookup matches Err(e) ==> (r matches Err(AuthError::Backend(m)) && m == e),
{
    match lookup {
        Ok(Some(u)) => Ok(u),
        Ok(None) => Err(AuthError::Invalid),
        Err(e) => Err(AuthError::Backend(e)),
    }
}

/// Proof that a request holds the operator token.
#[derive(Debug, Clone, Copy)]
pub struct AdminToken;

pub open spec fn admin_unconfigured_text() -> Seq<char> {
    "MNEMOSYNE_ADMIN_TOKEN is not configured; use the `create-user` CLI command instead"@
}

/// Check the operator token: refused for everyone while none is configured,
/// missing without a bearer token, and otherwise granted exactly when the
/// given token's bytes equal the configured one's.
pub fn check_admin(expected: &str, header: Option<&str>) -> (r: Result<AdminToken, AuthError>)
    ensures
        expected@.len() == 0 ==> (r matches Err(AuthError::Backend(m)) && m@
            == admin_unconfigured_text()),
        expected@.len() > 0 ==> match bearer_spec(
            match header {
                Some(h) => Some(h@),
                None => None,
            },
        ) {
            None => r matches Err(AuthError::Missing),
            Some(given) => (r is Ok <==> given == expected@) && (r is Err ==> (r matches Err(
                AuthError::Invalid,
            ))),
        },
{
    if expected.is_empty() {
        return Err(AuthError::Backend(own(
            "MNEMOSYNE_ADMIN_TOKEN is not configured; use the `create-user` CLI command instead",
        )));
    }
    let given = match bearer_token(header) {
        Some(g) => g,
        None => return Err(AuthError::Missing),
    };
    let ok = constant_time_eq(given.as_str().as_bytes(), expected.as_bytes());
    proof {
        vstd::utf8::encode_utf8_decode_utf8(given@);
        vstd::utf8::encode_utf8_decode_utf8(expected@);
    }
    if ok {
        Ok(AdminToken)
    } else {
        Err(AuthError::Invalid)
    }
}

} // verus!
