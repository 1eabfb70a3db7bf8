//! Public-key derivation: the deterministic map from X25519 secret-key
//! strings to their public keys, and the canonical encoding of public keys.

use vstd::prelude::*;

use age::secrecy::ExposeSecret;

verus! {

use crate::VaultError;

/// The public key that age derives from a secret-key string, provided the
/// string parses as an X25519 identity; the result is a function of the
/// input string alone.
pub uninterp spec fn derived_public(sk: Seq<char>) -> Option<Seq<char>>;

/// The canonical re-encoding that age gives a recipient (public-key) string,
/// provided the string parses; the result is a function of the input string
/// alone.
pub uninterp spec fn recipient_canon(pk: Seq<char>) -> Option<Seq<char>>;

/// A public-key string is canonical when re-encoding it returns it unchanged.
pub open spec fn is_canonical_pk(pk: Seq<char>) -> bool {
    recipient_canon(pk) == Some(pk)
}

pub open spec fn str_views(v: Seq<String>) -> Seq<Seq<char>> {
    v.map_values(|s: String| s@)
}


/// The canonical encodings of the X25519 public keys that stand for
/// small-order curve points: the zero point, the points of order two, four
/// and eight, their non-canonical field encodings, and — since X25519
/// ignores the top bit of a key — the variant of each with that bit set.
/// The Diffie–Hellman shared secret with any of them comes out all zero,
/// which age's key wrapping refuses by failing loudly, so the vault treats
/// them as malformed rather than ever handing them to age.
pub open spec fn degenerate_pk(pk: Seq<char>) -> bool {
    ||| pk == "age1qqqqqqqqqqqqqqqqqqqqqqqqqqqqqqqqqqqqqqqqqqqqqqqqqqqq5cu47z"@
    ||| pk == "age1qqqqqqqqqqqqqqqqqqqqqqqqqqqqqqqqqqqqqqqqqqqqqqqqqzqqsuwj9m"@
    ||| pk == "age1qyqqqqqqqqqqqqqqqqqqqqqqqqqqqqqqqqqqqqqqqqqqqqqqqqqqj7vrya"@
    ||| pk == "age1qyqqqqqqqqqqqqqqqqqqqqqqqqqqqqqqqqqqqqqqqqqqqqqqqzqqk67yly"@
    ||| pk == "age1ur4h5lpmgxu2u9jku0a0r87ydtdqnr0tnsetrlvxvgz3vh6fhqqqzyt4v9"@
    ||| pk == "age1ur4h5lpmgxu2u9jku0a0r87ydtdqnr0tnsetrlvxvgz3vh6fhzqqxqejhu"@
    ||| pk == "age1t7wft09r2zxzfvwsk92eeql0tvzyghxytqwgapkcyf8dm5ylz9ts6wm9s8"@
    ||| pk == "age1t7wft09r2zxzfvwsk92eeql0tvzyghxytqwgapkcyf8dm5ylz8ts72fzt7"@
    ||| pk == "age1anlllllllllllllllllllllllllllllllllllllllllllllllals4n2t7m"@
    ||| pk == "age1anllllllllllllllllllllllllllllllllllllllllllllllllls3hcv9z"@
    ||| pk == "age1ahlllllllllllllllllllllllllllllllllllllllllllllllalsn46ayy"@
    ||| pk == "age1ahlllllllllllllllllllllllllllllllllllllllllllllllllsh3g6la"@
    ||| pk == "age1amlllllllllllllllllllllllllllllllllllllllllllllllalselrwrv"@
    ||| pk == "age1amlllllllllllllllllllllllllllllllllllllllllllllllllsam3fc4"@
}

/// A public-key string the vault will encrypt to: it parses, it is in
/// canonical form, and it is not a degenerate (small-order) key.
pub open spec fn usable_key(s: Seq<char>) -> bool {
    recipient_canon(s) matches Some(c) && !degenerate_pk(c)
}

fn eq_lit(c: &String, lit: &str) -> (r: bool)
    ensures
        r == (c@ == lit@),
{
    *c == lit.to_owned()
}

/// Whether a canonical public-key string is one of the degenerate keys.
pub fn pk_is_degenerate(c: &String) -> (r: bool)
    ensures
        r == degenerate_pk(c@),
{
    eq_lit(c, "age1qqqqqqqqqqqqqqqqqqqqqqqqqqqqqqqqqqqqqqqqqqqqqqqqqqqq5cu47z") || eq_lit(
        c,
        "age1qqqqqqqqqqqqqqqqqqqqqqqqqqqqqqqqqqqqqqqqqqqqqqqqqzqqsuwj9m",
    ) || eq_lit(c, "age1qyqqqqqqqqqqqqqqqqqqqqqqqqqqqqqqqqqqqqqqqqqqqqqqqqqqj7vrya") || eq_lit(
        c,
        "age1qyqqqqqqqqqqqqqqqqqqqqqqqqqqqqqqqqqqqqqqqqqqqqqqqzqqk67yly",
    ) || eq_lit(c, "age1ur4h5lpmgxu2u9jku0a0r87ydtdqnr0tnsetrlvxvgz3vh6fhqqqzyt4v9") || eq_lit(
        c,
        "age1ur4h5lpmgxu2u9jku0a0r87ydtdqnr0tnsetrlvxvgz3vh6fhzqqxqejhu",
    ) || eq_lit(c, "age1t7wft09r2zxzfvwsk92eeql0tvzyghxytqwgapkcyf8dm5ylz9ts6wm9s8") || eq_lit(
        c,
        "age1t7wft09r2zxzfvwsk92eeql0tvzyghxytqwgapkcyf8dm5ylz8ts72fzt7",
    ) || eq_lit(c, "age1anlllllllllllllllllllllllllllllllllllllllllllllllals4n2t7m") || eq_lit(
        c,
        "age1anllllllllllllllllllllllllllllllllllllllllllllllllls3hcv9z",
    ) || eq_lit(c, "age1ahlllllllllllllllllllllllllllllllllllllllllllllllalsn46ayy") || eq_lit(
        c,
        "age1ahlllllllllllllllllllllllllllllllllllllllllllllllllsh3g6la",
    ) || eq_lit(c, "age1amlllllllllllllllllllllllllllllllllllllllllllllllalselrwrv") || eq_lit(
        c,
        "age1amlllllllllllllllllllllllllllllllllllllllllllllllllsam3fc4",
    )
}

/// Relies on age::x25519::Identity::from_str, Identity::to_public and the
/// Display impl of age::x25519::Recipient: public-key derivation is a
/// deterministic function of the secret-key string, and a derived public key
/// re-encodes to itself.
#[verifier::external_body]
pub(crate) fn age_derive_public(sk: &String) -> (r: Option<String>)
    ensures
        match r {
            Some(p) => derived_public(sk@) == Some(p@) && is_canonical_pk(p@),
            None => derived_public(sk@) is None,
        },
{
    match sk.as_str().parse::<age::x25519::Identity>() {
        Ok(id) => Some(id.to_public().to_string()),
        Err(_) => None,
    }
}

/// Relies on age::x25519::Recipient::from_str and its Display impl: parsing
/// and re-encoding a public-key string is deterministic, and the re-encoded
/// form re-parses to itself unchanged.
#[verifier::external_body]
pub(crate) fn recipient_normalize(pk: &String) -> (r: Option<String>)
    ensures
        match r {
            Some(c) => recipient_canon(pk@) == Some(c@) && is_canonical_pk(c@),
            None => recipient_canon(pk@) is None,
        },
{
    match pk.as_str().parse::<age::x25519::Recipient>() {
        Ok(rec) => Some(rec.to_string()),
        Err(_) => None,
    }
}

/// Relies on age::x25519::Identity::generate, Identity::to_string and
/// Identity::to_public: the generated secret-key string parses back to the
/// same identity, so it derives to the returned public key.
#[verifier::external_body]
pub(crate) fn age_generate_keypair() -> (r: (String, String))
    ensures
        derived_public(r.0@) == Some(r.1@),
        is_canonical_pk(r.1@),
{
    let id = age::x25519::Identity::generate();
    let sk = id.to_string().expose_secret().clone();
    (sk, id.to_public().to_string())
}

/// Derives the public key belonging to a private key, failing exactly when
/// the private key does not parse as an X25519 identity.
pub fn derive_public(private_key: &String) -> (r: Result<String, VaultError>)
    ensures
        match r {
            Ok(p) => derived_public(private_key@) == Some(p@) && is_canonical_pk(p@),
            Err(e) => e == VaultError::MalformedKey && derived_public(private_key@) is None,
        },
{
    match age_derive_public(private_key) {
        Some(p) => Ok(p),
        None => Err(VaultError::MalformedKey),
    }
}

/// Generates a fresh identity: a secret-key string and the public key it
/// derives to.
pub fn generate_keypair() -> (r: (String, String))
    ensures
        derived_public(r.0@) == Some(r.1@),
        is_canonical_pk(r.1@),
{
    age_generate_keypair()
}

/// Law: public-key derivation is deterministic — any two derivations from
/// the same secret-key string yield the same public key.
pub proof fn lemma_derive_public_deterministic(sk: Seq<char>, p1: Seq<char>, p2: Seq<char>)
    ensures
        derived_public(sk) == Some(p1) && derived_public(sk) == Some(p2) ==> p1 == p2,
{
}

} // verus!
