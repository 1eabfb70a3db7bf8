//! The multi-recipient envelope: a secret body encrypted once with a fresh
//! content key, that key wrapped for each recipient public key, so that
//! exactly the holders of a matching private key can recover the body.

use vstd::prelude::*;

use std::io::{Read, Write};

verus! {

use crate::VaultError;
use crate::keys::{derived_public, recipient_canon, is_canonical_pk, degenerate_pk, usable_key,
    str_views};
use crate::keys::{recipient_normalize, pk_is_degenerate};

/// What decrypting an envelope with a private key yields: the body on a
/// match; `Err(true)` when the envelope is a recipient-format age file in
/// which no wrapped-key entry unwraps under that key; `Err(false)` for
/// everything else — an envelope that is malformed, of a format this vault
/// never writes (such as a passphrase-protected file), or that fails
/// integrity checks. A function of the envelope bytes and the key string
/// alone.
pub uninterp spec fn decrypt_of(env: Seq<u8>, sk: Seq<char>) -> Result<Seq<u8>, bool>;

pub open spec fn decrypt_view(r: Result<Vec<u8>, bool>) -> Result<Seq<u8>, bool> {
    match r {
        Ok(v) => Ok(v@),
        Err(b) => Err(b),
    }
}

/// The envelope `env` protects `plain` for exactly the canonical recipient
/// keys in `recips`: every identity whose derived public key is in the set
/// recovers `plain`, and every other identity is turned away unmatched.
pub open spec fn envelope_for(env: Seq<u8>, plain: Seq<u8>, recips: Set<Seq<char>>) -> bool {
    forall|sk: Seq<char>|
        derived_public(sk) is Some ==> #[trigger] decrypt_of(env, sk) == (if recips.contains(
            derived_public(sk)->0,
        ) {
            Ok::<Seq<u8>, bool>(plain)
        } else {
            Err::<Seq<u8>, bool>(true)
        })
}

/// Relies on age::Encryptor::with_recipients and StreamWriter over an
/// in-memory buffer: the produced age file decrypts to the plaintext under
/// every identity whose public key is listed, and under no other identity.
/// age fails loudly while wrapping the content key if a recipient key is so
/// degenerate that the shared secret comes out all zero; the precondition
/// keeps those keys out, so the call returns on every admitted input.
#[verifier::external_body]
pub(crate) fn age_encrypt(plaintext: &Vec<u8>, recipients: &Vec<String>) -> (r: Vec<u8>)
    requires
        recipients@.len() > 0,
        forall|i: int| 0 <= i < recipients@.len() ==> is_canonical_pk(#[trigger] recipients@[i]@),
        forall|i: int| 0 <= i < recipients@.len() ==> !degenerate_pk(#[trigger] recipients@[i]@),
    ensures
        envelope_for(r@, plaintext@, str_views(recipients@).to_set()),
{
    let recips: Vec<Box<dyn age::Recipient + Send>> = recipients
        .iter()
        .map(|s| Box::new(s.as_str().parse::<age::x25519::Recipient>().unwrap()) as Box<dyn age::Recipient + Send>)
        .collect();
    let encryptor = age::Encryptor::with_recipients(recips).unwrap();
    let mut out: Vec<u8> = Vec::new();
    let mut writer = encryptor.wrap_output(&mut out).unwrap();
    writer.write_all(plaintext.as_slice()).unwrap();
    writer.finish().unwrap();
    out
}

/// Relies on age::Decryptor over an in-memory buffer: the outcome of
/// decryption is a deterministic function of the envelope bytes and the
/// identity; NoMatchingKeys is reported exactly when no entry unwraps.
#[verifier::external_body]
pub(crate) fn age_decrypt(env: &Vec<u8>, sk: &String) -> (r: Result<Vec<u8>, bool>)
    requires
        derived_public(sk@) is Some,
    ensures
        decrypt_view(r) == decrypt_of(env@, sk@),
{
    let id: age::x25519::Identity = sk.as_str().parse().unwrap();
    let decryptor = match age::Decryptor::new(env.as_slice()) {
        Ok(age::Decryptor::Recipients(d)) => d,
        _ => return Err(false),
    };
    let mut reader = match decryptor.decrypt(std::iter::once(&id as &dyn age::Identity)) {
        Ok(r) => r,
        Err(age::DecryptError::NoMatchingKeys) => return Err(true),
        Err(_) => return Err(false),
    };
    let mut out: Vec<u8> = Vec::new();
    match reader.read_to_end(&mut out) {
        Ok(_) => Ok(out),
        Err(_) => Err(false),
    }
}

/// The canonical forms of a recipient list, defined where every entry parses.
pub open spec fn canon_views(v: Seq<String>) -> Seq<Seq<char>> {
    v.map_values(|s: String| recipient_canon(s@)->0)
}

pub open spec fn all_keys_usable(v: Seq<String>) -> bool {
    forall|i: int| 0 <= i < v.len() ==> usable_key((#[trigger] v[i])@)
}

/// Encrypts a plaintext to a recipient set, producing the envelope bytes.
/// Fails with `EmptyRecipientSet` on an empty set (a secret encrypted to
/// nobody would be unreadable forever) and with `MalformedKey` when a
/// recipient string does not parse as a public key or names a degenerate
/// (small-order) key.
pub fn encrypt_envelope(plaintext: &Vec<u8>, recipients: &Vec<String>) -> (r: Result<
    Vec<u8>,
    VaultError,
>)
    ensures
        recipients@.len() == 0 ==> r == Err::<Vec<u8>, VaultError>(VaultError::EmptyRecipientSet),
        recipients@.len() > 0 && !all_keys_usable(recipients@) ==> r == Err::<Vec<u8>, VaultError>(
            VaultError::MalformedKey,
        ),
        recipients@.len() > 0 && all_keys_usable(recipients@) ==> (r matches Ok(env)
            && envelope_for(env@, plaintext@, canon_views(recipients@).to_set())),
{
    if recipients.len() == 0 {
        return Err(VaultError::EmptyRecipientSet);
    }
    let mut canon: Vec<String> = Vec::new();
    let n = recipients.len();
    let mut i: usize = 0;
    while i < n
        invariant
            n == recipients@.len(),
            0 <= i <= n,
            canon@.len() == i as int,
            forall|j: int| 0 <= j < i as int ==> usable_key((#[trigger] recipients@[j])@),
            forall|j: int| 0 <= j < i as int ==> (#[trigger] canon@[j])@ == recipient_canon(
                recipients@[j]@,
            )->0,
            forall|j: int| 0 <= j < i as int ==> is_canonical_pk((#[trigger] canon@[j])@),
            forall|j: int| 0 <= j < i as int ==> !degenerate_pk((#[trigger] canon@[j])@),
        decreases n - i,
    {
        match recipient_normalize(&recipients[i]) {
            Some(c) => {
                if pk_is_degenerate(&c) {
                    return Err(VaultError::MalformedKey);
                }
                canon.push(c);
            },
            None => {
                return Err(VaultError::MalformedKey);
            },
        }
        i += 1;
    }
    let env = age_encrypt(plaintext, &canon);
    proof {
        assert(str_views(canon@) =~= canon_views(recipients@));
    }
    Ok(env)
}

/// Decrypts an envelope with a private key. Fails with `MalformedKey` when
/// the key does not parse, `AccessDenied` when the key is not among the
/// envelope's recipients, and `Corrupted` when the envelope is malformed or
/// fails integrity verification.
pub fn decrypt_envelope(env: &Vec<u8>, private_key: &String) -> (r: Result<Vec<u8>, VaultError>)
    ensures
        derived_public(private_key@) is None ==> r == Err::<Vec<u8>, VaultError>(
            VaultError::MalformedKey,
        ),
        derived_public(private_key@) is Some ==> match decrypt_of(env@, private_key@) {
            Ok(p) => r matches Ok(v) && v@ == p,
            Err(no_match) => r == Err::<Vec<u8>, VaultError>(
                if no_match {
                    VaultError::AccessDenied
                } else {
                    VaultError::Corrupted
                },
            ),
        },
{
    match crate::keys::age_derive_public(private_key) {
        Some(_) => (),
        None => {
            return Err(VaultError::MalformedKey);
        },
    }
    match age_decrypt(env, private_key) {
        Ok(v) => Ok(v),
        Err(true) => Err(VaultError::AccessDenied),
        Err(false) => Err(VaultError::Corrupted),
    }
}

/// Law: the envelope round trip. An envelope produced for a recipient set
/// decrypts to the original plaintext under the private key of every member
/// of the set, and is refused, unmatched, under every other private key.
pub proof fn lemma_envelope_round_trip(
    env: Seq<u8>,
    plain: Seq<u8>,
    recips: Set<Seq<char>>,
    sk: Seq<char>,
)
    ensures
        envelope_for(env, plain, recips) && derived_public(sk) is Some && recips.contains(
            derived_public(sk)->0,
        ) ==> decrypt_of(env, sk) == Ok::<Seq<u8>, bool>(plain),
        envelope_for(env, plain, recips) && derived_public(sk) is Some && !recips.contains(
            derived_public(sk)->0,
        ) ==> decrypt_of(env, sk) == Err::<Seq<u8>, bool>(true),
{
}

} // verus!
