use vstd::prelude::*;
use vstd::slice::slice_subrange;
use crate::digest::{constant_time_eq, hmac_sha256, hmac_sha256_of};
use crate::hexcode::{decode_hex, hex_decoded};
use crate::text::{decimal_of, find_byte, parse_decimal, split_first};

verus! {

/// The separator between the fields of a token.
pub const DOT: u8 = 46;

/// A credential was missing, malformed, badly signed or expired.
#[derive(Debug, Clone, Copy, PartialEq, Eq, Structural)]
pub enum AuthError {
    Unauthorized,
}

/// Whether an expiry field still admits the instant `now`: an empty field
/// means the token never expires, otherwise `now` must come before it.
pub open spec fn expiry_admits(exp: Seq<u8>, now: u64) -> bool {
    exp.len() == 0 || (decimal_of(exp).is_some() && now < decimal_of(exp).unwrap())
}

/// The principal that `token` names, when it is well formed, signed with
/// `secret` and not expired at `now`.
///
/// A token reads `<principal>.<expiry>.<signature>`: the principal in decimal,
/// the expiry in decimal seconds or empty, and the signature as the hexadecimal
/// HMAC-SHA256 tag, under `secret`, of everything before the second dot.
pub open spec fn token_principal(secret: Seq<u8>, token: Seq<u8>, now: u64) -> Option<u64> {
    match split_first(token, DOT) {
        None => None,
        Some((id, rest)) => match split_first(rest, DOT) {
            None => None,
            Some((exp, sig)) => {
                let signed = token.subrange(0, (id.len() + 1 + exp.len()) as int);
                if hex_decoded(sig) == Some(hmac_sha256_of(secret, signed)) && decimal_of(
                    id,
                ).is_some() && expiry_admits(exp, now) {
                    decimal_of(id)
                } else {
                    None
                }
            },
        },
    }
}

/// Verifies a credential against the shared secret and returns the principal
/// it names. The signature is compared in constant time.
pub fn authenticate(secret: &[u8], token: &[u8], now: u64) -> (r: Result<u64, AuthError>)
    ensures
        match token_principal(secret@, token@, now) {
            Some(p) => r == Ok::<u64, AuthError>(p),
            None => r == Err::<u64, AuthError>(AuthError::Unauthorized),
        },
{
    let n = token.len();
    let i = match find_byte(token, DOT) {
        Some(i) => i,
        None => return Err(AuthError::Unauthorized),
    };
    let id = slice_subrange(token, 0, i);
    let rest = slice_subrange(token, i + 1, n);
    let m = rest.len();
    let k = match find_byte(rest, DOT) {
        Some(k) => k,
        None => return Err(AuthError::Unauthorized),
    };
    let exp = slice_subrange(rest, 0, k);
    let sig = slice_subrange(rest, k + 1, m);
    let signed = slice_subrange(token, 0, i + 1 + k);
    proof {
        assert(id@ == token@.subrange(0, i as int));
        assert(rest@ == token@.subrange(i + 1, token@.len() as int));
        assert(exp@ == rest@.subrange(0, k as int));
        assert(sig@ == rest@.subrange(k + 1, rest@.len() as int));
    }
    let tag = hmac_sha256(secret, signed);
    let sig_ok = match decode_hex(sig) {
        Some(given) => constant_time_eq(&given, &tag),
        None => false,
    };
    let principal = parse_decimal(id);
    let fresh = if exp.len() == 0 {
        true
    } else {
        match parse_decimal(exp) {
            Some(e) => now < e,
            None => false,
        }
    };
    match principal {
        Some(p) => {
            if sig_ok && fresh {
                Ok(p)
            } else {
                Err(AuthError::Unauthorized)
            }
        },
        None => Err(AuthError::Unauthorized),
    }
}

/// The bytes `Bearer ` that may open a credential.
pub open spec fn bearer_prefix() -> Seq<u8> {
    seq![66u8, 101u8, 97u8, 114u8, 101u8, 114u8, 32u8]
}

/// The token a credential carries: the credential without a leading
/// `Bearer `, if it has one.
pub open spec fn token_of(raw: Seq<u8>) -> Seq<u8> {
    if raw.len() >= 7 && raw.subrange(0, 7) == bearer_prefix() {
        raw.subrange(7, raw.len() as int)
    } else {
        raw
    }
}

/// Takes the token out of a credential.
pub fn extract_token(raw: &[u8]) -> (r: &[u8])
    ensures
        r@ == token_of(raw@),
{
    let n = raw.len();
    if n < 7 {
        return raw;
    }
    let is_bearer = raw[0] == 66 && raw[1] == 101 && raw[2] == 97 && raw[3] == 114 && raw[4]
        == 101 && raw[5] == 114 && raw[6] == 32;
    proof {
        if is_bearer {
            assert(raw@.subrange(0, 7) =~= bearer_prefix());
        } else if raw@.subrange(0, 7) == bearer_prefix() {
            assert(raw@.subrange(0, 7)[0] == raw@[0]);
            assert(raw@.subrange(0, 7)[1] == raw@[1]);
            assert(raw@.subrange(0, 7)[2] == raw@[2]);
            assert(raw@.subrange(0, 7)[3] == raw@[3]);
            assert(raw@.subrange(0, 7)[4] == raw@[4]);
            assert(raw@.subrange(0, 7)[5] == raw@[5]);
            assert(raw@.subrange(0, 7)[6] == raw@[6]);
        }
    }
    if is_bearer {
        slice_subrange(raw, 7, n)
    } else {
        raw
    }
}

/// Authenticates a request or a connection from the credential it carries,
/// if any.
pub fn authenticate_credential(secret: &[u8], credential: Option<&[u8]>, now: u64) -> (r: Result<
    u64,
    AuthError,
>)
    ensures
        match credential {
            None => r == Err::<u64, AuthError>(AuthError::Unauthorized),
            Some(raw) => match token_principal(secret@, token_of(raw@), now) {
                Some(p) => r == Ok::<u64, AuthError>(p),
                None => r == Err::<u64, AuthError>(AuthError::Unauthorized),
            },
        },
{
    match credential {
        Some(raw) => authenticate(secret, extract_token(raw), now),
        None => Err(AuthError::Unauthorized),
    }
}

/// Whether the expiry field of `token` names an instant no later than `now`.
pub open spec fn token_expired(token: Seq<u8>, now: u64) -> bool {
    match split_first(token, DOT) {
        None => false,
        Some((id, rest)) => match split_first(rest, DOT) {
            None => false,
            Some((exp, sig)) => decimal_of(exp).is_some() && decimal_of(exp).unwrap() <= now,
        },
    }
}

/// A token whose expiry has passed names no principal, whatever its
/// signature.
pub proof fn lemma_expired_token_rejected(secret: Seq<u8>, token: Seq<u8>, now: u64)
    requires
        token_expired(token, now),
    ensures
        token_principal(secret, token, now).is_none(),
{
}

} // verus!
