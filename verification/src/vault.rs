//! The vault: a project's recipient set and its named secrets, each secret
//! held as a multi-recipient envelope. Every stored secret is encrypted to
//! the vault's current recipient set, except those marked stale after a
//! recipient change that could not re-encrypt them.

use vstd::prelude::*;

verus! {

use crate::VaultError;
use crate::keys::{derived_public, degenerate_pk, usable_key, str_views, age_derive_public};
use crate::recipients::{RecipientEntry, RecipientView, rc_views, pk_seq, rc_wf, clone_entries,
    entries_with_added, entries_with_removed, collect_pks};
use crate::envelope::{decrypt_of, envelope_for, encrypt_envelope, decrypt_envelope};

/// One stored secret: its name, the public keys its envelope was encrypted
/// to, the envelope bytes (`None` when encrypted to an empty recipient set,
/// which nobody can read), and whether it is stale.
pub struct StoredSecret {
    pub name: String,
    pub encrypted_to: Vec<String>,
    pub body: Option<Vec<u8>>,
    pub stale: bool,
}

pub ghost struct SecretView {
    pub name: Seq<char>,
    pub encrypted_to: Seq<Seq<char>>,
    pub body: Option<Seq<u8>>,
    pub stale: bool,
}

impl View for StoredSecret {
    type V = SecretView;

    open spec fn view(&self) -> SecretView {
        SecretView {
            name: self.name@,
            encrypted_to: str_views(self.encrypted_to@),
            body: match self.body {
                Some(b) => Some(b@),
                None => None,
            },
            stale: self.stale,
        }
    }
}

pub open spec fn sec_views(v: Seq<StoredSecret>) -> Seq<SecretView> {
    v.map_values(|s: StoredSecret| s@)
}

pub open spec fn contains_secret(s: Seq<SecretView>, name: Seq<char>) -> bool {
    exists|i: int| 0 <= i < s.len() && s[i].name == name
}

/// What a vault looks like in specifications: its recipients and secrets.
pub ghost struct VaultView {
    pub recipients: Seq<RecipientView>,
    pub secrets: Seq<SecretView>,
}

/// The shape a freshly written secret has: named, not stale, encrypted to
/// exactly the given keys, with an envelope for the plaintext — or no body
/// at all when the recipient set is empty.
pub open spec fn fresh_secret(s: SecretView, name: Seq<char>, plain: Seq<u8>, pks: Seq<Seq<char>>) -> bool {
    &&& s.name == name
    &&& s.stale == false
    &&& s.encrypted_to == pks
    &&& if pks.len() == 0 {
        s.body is None
    } else {
        s.body matches Some(b) && envelope_for(b, plain, pks.to_set())
    }
}

/// Law: a secret just written decrypts back to the plaintext it was
/// written with under the private key of every listed recipient, and is
/// refused, unmatched, under every other private key.
pub proof fn lemma_put_get_round_trip(
    s: SecretView,
    name: Seq<char>,
    plain: Seq<u8>,
    pks: Seq<Seq<char>>,
    sk: Seq<char>,
)
    ensures
        fresh_secret(s, name, plain, pks) && derived_public(sk) is Some && pks.len() > 0 ==> (
        s.body matches Some(b) && decrypt_of(b, sk) == (if pks.to_set().contains(
            derived_public(sk)->0,
        ) {
            Ok::<Seq<u8>, bool>(plain)
        } else {
            Err::<Seq<u8>, bool>(true)
        })),
{
    if fresh_secret(s, name, plain, pks) && derived_public(sk) is Some && pks.len() > 0 {
        crate::envelope::lemma_envelope_round_trip(s.body->0, plain, pks.to_set(), sk);
    }
}

/// Law: a readable secret is never left behind by a cascade. If a caller
/// supplied a key that decrypts a secret's old envelope, the cascade must
/// have rotated that secret to the new recipient set; a key whose public
/// key is outside that set is then turned away unmatched, and every key
/// whose public key is in it recovers the secret.
pub proof fn lemma_cascade_revokes(
    n: SecretView,
    o: SecretView,
    newpks: Seq<Seq<char>>,
    keys: Seq<Seq<char>>,
    failed: Seq<Seq<char>>,
    reader: Seq<char>,
    probe: Seq<char>,
)
    ensures
        secret_outcome(n, o, newpks, keys, failed) && newpks.len() > 0 && keys.contains(reader)
            && derived_public(reader) is Some && (o.body matches Some(ob) && decrypt_of(
            ob,
            reader,
        ) is Ok) && derived_public(probe) is Some ==> (n.body matches Some(b) && (!newpks.to_set().contains(
            derived_public(probe)->0,
        ) ==> decrypt_of(b, probe) == Err::<Seq<u8>, bool>(true)) && (newpks.to_set().contains(
            derived_public(probe)->0,
        ) ==> decrypt_of(b, probe) is Ok)),
{
    if secret_outcome(n, o, newpks, keys, failed) && newpks.len() > 0 && keys.contains(reader)
        && derived_public(reader) is Some && (o.body matches Some(ob) && decrypt_of(
        ob,
        reader,
    ) is Ok) && derived_public(probe) is Some {
        if failed.contains(o.name) {
            assert(unrotatable(o, keys));
            assert(false);
        }
        assert(rotated_from(n, o, newpks, keys));
    }
}

fn clone_bytes(v: &Vec<u8>) -> (r: Vec<u8>)
    ensures
        r@ == v@,
{
    let n = v.len();
    let mut out: Vec<u8> = Vec::new();
    let mut i: usize = 0;
    while i < n
        invariant
            n == v@.len(),
            0 <= i <= n,
            out@ == v@.take(i as int),
        decreases n - i,
    {
        out.push(v[i]);
        proof {
            assert(out@ =~= v@.take(i as int + 1));
        }
        i += 1;
    }
    proof {
        assert(v@.take(n as int) =~= v@);
    }
    out
}

fn clone_string_vec(v: &Vec<String>) -> (r: Vec<String>)
    ensures
        str_views(r@) == str_views(v@),
{
    let n = v.len();
    let mut out: Vec<String> = Vec::new();
    let mut i: usize = 0;
    while i < n
        invariant
            n == v@.len(),
            0 <= i <= n,
            out@.len() == i as int,
            forall|j: int| 0 <= j < i as int ==> str_views(out@)[j] == str_views(v@)[j],
        decreases n - i,
    {
        let ghost before = out@;
        out.push(v[i].clone());
        proof {
            assert forall|j: int|
                0 <= j < i as int + 1 implies str_views(out@)[j] == str_views(v@)[j] by {
                if j < i as int {
                    assert(str_views(before)[j] == str_views(v@)[j]);
                    assert(out@[j] == before[j]);
                }
            }
        }
        i += 1;
    }
    proof {
        assert(str_views(out@) =~= str_views(v@));
    }
    out
}

fn clone_secret(s: &StoredSecret, stale: bool) -> (r: StoredSecret)
    ensures
        r@ == (SecretView { stale: stale, ..s@ }),
{
    let body = match &s.body {
        Some(b) => Some(clone_bytes(b)),
        None => None,
    };
    StoredSecret {
        name: s.name.clone(),
        encrypted_to: clone_string_vec(&s.encrypted_to),
        body,
        stale,
    }
}

fn find_secret(v: &Vec<StoredSecret>, name: &String) -> (r: Option<usize>)
    ensures
        match r {
            Some(i) => i < v@.len() && sec_views(v@)[i as int].name == name@ && forall|j: int|
                0 <= j < i as int ==> sec_views(v@)[j].name != name@,
            None => !contains_secret(sec_views(v@), name@),
        },
{
    let n = v.len();
    let mut i: usize = 0;
    while i < n
        invariant
            n == v@.len(),
            0 <= i <= n,
            forall|j: int| 0 <= j < i as int ==> sec_views(v@)[j].name != name@,
        decreases n - i,
    {
        if v[i].name == *name {
            return Some(i);
        }
        i += 1;
    }
    None
}

fn clone_secrets(v: &Vec<StoredSecret>) -> (r: Vec<StoredSecret>)
    ensures
        sec_views(r@) == sec_views(v@),
{
    let n = v.len();
    let mut out: Vec<StoredSecret> = Vec::new();
    let mut i: usize = 0;
    while i < n
        invariant
            n == v@.len(),
            0 <= i <= n,
            out@.len() == i as int,
            forall|j: int| 0 <= j < i as int ==> sec_views(out@)[j] == sec_views(v@)[j],
        decreases n - i,
    {
        out.push(clone_secret(&v[i], v[i].stale));
        i += 1;
    }
    proof {
        assert(sec_views(out@) =~= sec_views(v@));
    }
    out
}


/// How a recipient change leaves one stored secret when it could be
/// rotated: re-encrypted to the new recipient set, carrying a plaintext
/// that one of the caller's keys recovered from the old envelope.
pub open spec fn rotated_from(
    n: SecretView,
    o: SecretView,
    newpks: Seq<Seq<char>>,
    keys: Seq<Seq<char>>,
) -> bool {
    &&& n.name == o.name
    &&& n.stale == false
    &&& n.encrypted_to == newpks
    &&& if newpks.len() == 0 {
        n.body is None
    } else {
        n.body matches Some(b) && exists|k: Seq<char>|
            #![auto]
            keys.contains(k) && (o.body matches Some(ob) && decrypt_of(ob, k) matches Ok(p)
                && envelope_for(b, p, newpks.to_set()))
    }
}

/// No supplied key opens this secret's old envelope: every key that parses
/// fails to decrypt it. Only such a secret may be given up on by a cascade.
pub open spec fn unrotatable(o: SecretView, keys: Seq<Seq<char>>) -> bool {
    o.body matches Some(ob) ==> forall|k: Seq<char>|
        #![auto]
        keys.contains(k) && derived_public(k) is Some ==> !(decrypt_of(ob, k) is Ok)
}

/// How a recipient change leaves each stored secret: either rotated to the
/// new recipient set, or — exactly when its name is on the failure list —
/// unchanged but marked stale, which is allowed only if no supplied key
/// could have decrypted it.
pub open spec fn secret_outcome(
    n: SecretView,
    o: SecretView,
    newpks: Seq<Seq<char>>,
    keys: Seq<Seq<char>>,
    failed: Seq<Seq<char>>,
) -> bool {
    if failed.contains(o.name) {
        n == (SecretView { stale: true, ..o }) && unrotatable(o, keys)
    } else {
        rotated_from(n, o, newpks, keys)
    }
}

/// The outcome of a re-encryption cascade: the names of the secrets that
/// could not be rotated because no supplied private key could decrypt them.
/// An empty list means every stored secret is encrypted to the current
/// recipient set.
pub struct ReencryptReport {
    pub unrotated: Vec<String>,
}

impl View for ReencryptReport {
    type V = Seq<Seq<char>>;

    open spec fn view(&self) -> Seq<Seq<char>> {
        str_views(self.unrotated@)
    }
}

fn try_rotate_one(s: &StoredSecret, new_pks: &Vec<String>, keys: &Vec<String>) -> (r: Option<
    StoredSecret,
>)
    requires
        forall|k: int|
            0 <= k < new_pks@.len() ==> crate::keys::is_canonical_pk(
                (#[trigger] new_pks@[k])@,
            ),
        forall|k: int| 0 <= k < new_pks@.len() ==> !degenerate_pk((#[trigger] new_pks@[k])@),
    ensures
        r matches Some(n) ==> rotated_from(n@, s@, str_views(new_pks@), str_views(keys@)),
        r is None ==> unrotatable(s@, str_views(keys@)),
{
    if new_pks.len() == 0 {
        let n = StoredSecret {
            name: s.name.clone(),
            encrypted_to: Vec::new(),
            body: None,
            stale: false,
        };
        proof {
            assert(n@.encrypted_to =~= str_views(new_pks@));
        }
        return Some(n);
    }
    let ob = match &s.body {
        Some(b) => b,
        None => {
            return None;
        },
    };
    let m = keys.len();
    let mut k: usize = 0;
    while k < m
        invariant
            m == keys@.len(),
            0 <= k <= m,
            s@.body matches Some(obv) && obv == ob@,
            forall|j: int|
                0 <= j < new_pks@.len() ==> crate::keys::is_canonical_pk(
                    (#[trigger] new_pks@[j])@,
                ),
            forall|j: int| 0 <= j < new_pks@.len() ==> !degenerate_pk((#[trigger] new_pks@[j])@),
            new_pks@.len() > 0,
            forall|j: int|
                #![auto]
                0 <= j < k as int ==> (derived_public(keys@[j]@) is Some ==> !(decrypt_of(
                    ob@,
                    keys@[j]@,
                ) is Ok)),
        decreases m - k,
    {
        if age_derive_public(&keys[k]).is_some() {
            match crate::envelope::age_decrypt(ob, &keys[k]) {
                Ok(p) => {
                    proof {
                        assert forall|j: int|
                            0 <= j < new_pks@.len() implies crate::keys::is_canonical_pk(
                            #[trigger] str_views(new_pks@)[j],
                        ) && !degenerate_pk(str_views(new_pks@)[j]) by {
                            assert(str_views(new_pks@)[j] == new_pks@[j]@);
                        }
                    }
                    let body = crate::envelope::age_encrypt(&p, new_pks);
                    let n = StoredSecret {
                        name: s.name.clone(),
                        encrypted_to: clone_string_vec(new_pks),
                        body: Some(body),
                        stale: false,
                    };
                    proof {
                        assert(str_views(keys@)[k as int] == keys@[k as int]@);
                        assert(str_views(keys@).contains(keys@[k as int]@));
                        assert(rotated_from(n@, s@, str_views(new_pks@), str_views(keys@)));
                    }
                    return Some(n);
                },
                Err(_) => {},
            }
        }
        k += 1;
    }
    proof {
        assert forall|kk: Seq<char>|
            #![auto]
            str_views(keys@).contains(kk) && derived_public(kk) is Some implies !(decrypt_of(
            ob@,
            kk,
        ) is Ok) by {
            let w = choose|w: int| 0 <= w < str_views(keys@).len() && str_views(keys@)[w] == kk;
            assert(str_views(keys@)[w] == keys@[w]@);
        }
    }
    None
}

fn rotate_all(secrets: &Vec<StoredSecret>, new_pks: &Vec<String>, keys: &Vec<String>) -> (r: (
    Vec<StoredSecret>,
    Vec<String>,
))
    requires
        forall|k: int|
            0 <= k < new_pks@.len() ==> crate::keys::is_canonical_pk(
                (#[trigger] new_pks@[k])@,
            ),
        forall|k: int| 0 <= k < new_pks@.len() ==> !degenerate_pk((#[trigger] new_pks@[k])@),
        forall|i: int, j: int|
            0 <= i < j < sec_views(secrets@).len() ==> #[trigger] sec_views(secrets@)[i].name
                != #[trigger] sec_views(secrets@)[j].name,
    ensures
        sec_views(r.0@).len() == sec_views(secrets@).len(),
        forall|i: int|
            0 <= i < sec_views(secrets@).len() ==> secret_outcome(
                #[trigger] sec_views(r.0@)[i],
                sec_views(secrets@)[i],
                str_views(new_pks@),
                str_views(keys@),
                str_views(r.1@),
            ),
        forall|x: Seq<char>|
            #[trigger] str_views(r.1@).contains(x) ==> contains_secret(sec_views(secrets@), x),
{
    let n = secrets.len();
    let mut out: Vec<StoredSecret> = Vec::new();
    let mut failed: Vec<String> = Vec::new();
    let mut i: usize = 0;
    while i < n
        invariant
            n == secrets@.len(),
            0 <= i <= n,
            out@.len() == i as int,
            forall|k: int|
                0 <= k < new_pks@.len() ==> crate::keys::is_canonical_pk(
                    (#[trigger] new_pks@[k])@,
                ),
            forall|k: int| 0 <= k < new_pks@.len() ==> !degenerate_pk((#[trigger] new_pks@[k])@),
            forall|a: int, b: int|
                0 <= a < b < sec_views(secrets@).len() ==> #[trigger] sec_views(secrets@)[a].name
                    != #[trigger] sec_views(secrets@)[b].name,
            forall|j: int|
                0 <= j < i as int ==> secret_outcome(
                    #[trigger] sec_views(out@)[j],
                    sec_views(secrets@)[j],
                    str_views(new_pks@),
                    str_views(keys@),
                    str_views(failed@),
                ),
            forall|x: Seq<char>|
                #[trigger] str_views(failed@).contains(x) ==> exists|j: int|
                    0 <= j < i as int && sec_views(secrets@)[j].name == x,
        decreases n - i,
    {
        let ghost out_before = out@;
        let ghost failed_before = failed@;
        match try_rotate_one(&secrets[i], new_pks, keys) {
            Some(rotated) => {
                out.push(rotated);
                proof {
                    assert(sec_views(out@) =~= sec_views(out_before).push(
                        sec_views(out@).last(),
                    ));
                    assert(!str_views(failed@).contains(sec_views(secrets@)[i as int].name));
                }
            },
            None => {
                out.push(clone_secret(&secrets[i], true));
                failed.push(secrets[i].name.clone());
                proof {
                    assert(sec_views(out@) =~= sec_views(out_before).push(
                        sec_views(out@).last(),
                    ));
                    assert(str_views(failed@) =~= str_views(failed_before).push(
                        secrets@[i as int].name@,
                    ));
                    assert(sec_views(secrets@)[i as int].name == secrets@[i as int].name@);
                    assert(str_views(failed@)[str_views(failed_before).len() as int]
                        == secrets@[i as int].name@);
                    assert forall|x: Seq<char>|
                        #[trigger] str_views(failed@).contains(x) implies (str_views(
                        failed_before,
                    ).contains(x) || x == secrets@[i as int].name@) by {
                        let w = choose|w: int|
                            0 <= w < str_views(failed@).len() && str_views(failed@)[w] == x;
                        if w < str_views(failed_before).len() {
                            assert(str_views(failed_before)[w] == x);
                        }
                    }
                    assert(str_views(failed@).contains(sec_views(secrets@)[i as int].name));
                    assert forall|j: int|
                        0 <= j < i as int + 1 implies secret_outcome(
                        #[trigger] sec_views(out@)[j],
                        sec_views(secrets@)[j],
                        str_views(new_pks@),
                        str_views(keys@),
                        str_views(failed@),
                    ) by {
                        if j < i as int {
                            assert(secret_outcome(
                                sec_views(out_before)[j],
                                sec_views(secrets@)[j],
                                str_views(new_pks@),
                                str_views(keys@),
                                str_views(failed_before),
                            ));
                            if str_views(failed_before).contains(sec_views(secrets@)[j].name) {
                                let w = choose|w: int|
                                    0 <= w < str_views(failed_before).len() && str_views(
                                        failed_before,
                                    )[w] == sec_views(secrets@)[j].name;
                                assert(str_views(failed@)[w] == sec_views(secrets@)[j].name);
                                assert(str_views(failed@).contains(sec_views(secrets@)[j].name));
                            } else {
                                assert(sec_views(secrets@)[j].name != sec_views(
                                    secrets@,
                                )[i as int].name);
                                assert(!str_views(failed@).contains(
                                    sec_views(secrets@)[j].name,
                                ));
                            }
                        }
                    }
                }
            },
        }
        i += 1;
    }
    (out, failed)
}

/// What `put_secret` reports: the secret was stored encrypted, or it was
/// stored unreadable because the recipient set is empty — a warning, not a
/// failure.
#[derive(Clone, Copy, Debug, PartialEq, Eq, Structural)]
pub enum PutStatus {
    Encrypted,
    EmptyRecipientSetWarning,
}

/// A project's vault.
pub struct Vault {
    recipients: Vec<RecipientEntry>,
    secrets: Vec<StoredSecret>,
}

impl View for Vault {
    type V = VaultView;

    closed spec fn view(&self) -> VaultView {
        VaultView { recipients: rc_views(self.recipients@), secrets: sec_views(self.secrets@) }
    }
}

impl Vault {
    /// Recipient keys are canonical and unique; secret names are unique;
    /// every secret that is not stale is encrypted to exactly the current
    /// recipient set, and a secret has no body exactly when its recipient
    /// list is empty.
    #[verifier::type_invariant]
    spec fn inv(self) -> bool {
        &&& rc_wf(self@.recipients)
        &&& forall|i: int, j: int|
            0 <= i < j < self@.secrets.len() ==> #[trigger] self@.secrets[i].name
                != #[trigger] self@.secrets[j].name
        &&& forall|i: int|
            0 <= i < self@.secrets.len() ==> (!(#[trigger] self@.secrets[i]).stale
                ==> self@.secrets[i].encrypted_to == pk_seq(self@.recipients))
        &&& forall|i: int|
            0 <= i < self@.secrets.len() ==> ((#[trigger] self@.secrets[i]).body is None
                <==> self@.secrets[i].encrypted_to.len() == 0)
    }

    pub fn new() -> (r: Vault)
        ensures
            r@.recipients == Seq::<RecipientView>::empty(),
            r@.secrets == Seq::<SecretView>::empty(),
    {
        let v = Vault { recipients: Vec::new(), secrets: Vec::new() };
        proof {
            assert(v@.recipients =~= Seq::<RecipientView>::empty());
            assert(v@.secrets =~= Seq::<SecretView>::empty());
        }
        v
    }

    /// The current recipients, in insertion order.
    pub fn recipients(&self) -> (r: &Vec<RecipientEntry>)
        ensures
            rc_views(r@) == self@.recipients,
    {
        &self.recipients
    }

    /// The stored secrets. No secret is ever silently out of date: each one
    /// is either encrypted to exactly the current recipient set, or carries
    /// the stale mark until a re-encryption pass rotates it.
    pub fn secrets(&self) -> (r: &Vec<StoredSecret>)
        ensures
            sec_views(r@) == self@.secrets,
            forall|i: int|
                0 <= i < self@.secrets.len() ==> (!(#[trigger] self@.secrets[i]).stale
                    ==> self@.secrets[i].encrypted_to == pk_seq(self@.recipients)),
    {
        proof {
            use_type_invariant(&*self);
        }
        &self.secrets
    }

    /// Encrypts `plaintext` to the current recipient set and stores it
    /// under `name`, replacing any secret of that name. Always succeeds;
    /// an empty recipient set is reported as a warning, and the secret is
    /// then stored unreadable.
    pub fn put_secret(&mut self, name: &String, plaintext: &Vec<u8>) -> (r: PutStatus)
        ensures
            final(self)@.recipients == old(self)@.recipients,
            r == PutStatus::EmptyRecipientSetWarning <==> old(self)@.recipients.len() == 0,
            !contains_secret(old(self)@.secrets, name@) ==> {
                &&& final(self)@.secrets.len() == old(self)@.secrets.len() + 1
                &&& final(self)@.secrets.take(old(self)@.secrets.len() as int) == old(
                    self,
                )@.secrets
                &&& fresh_secret(
                    final(self)@.secrets.last(),
                    name@,
                    plaintext@,
                    pk_seq(old(self)@.recipients),
                )
            },
            contains_secret(old(self)@.secrets, name@) ==> exists|i: int|
                #![trigger old(self)@.secrets[i].name]
                {
                    &&& 0 <= i < old(self)@.secrets.len() && old(self)@.secrets[i].name == name@
                    &&& forall|j: int| 0 <= j < i ==> old(self)@.secrets[j].name != name@
                    &&& final(self)@.secrets == old(self)@.secrets.update(
                        i,
                        final(self)@.secrets[i],
                    )
                    &&& fresh_secret(
                        final(self)@.secrets[i],
                        name@,
                        plaintext@,
                        pk_seq(old(self)@.recipients),
                    )
                },
    {
        proof {
            use_type_invariant(&*self);
        }
        let pk_list = collect_pks(&self.recipients);
        let (status, body) = if pk_list.len() == 0 {
            (PutStatus::EmptyRecipientSetWarning, None)
        } else {
            proof {
                assert(str_views(pk_list@).len() == pk_list@.len());
                assert(pk_seq(self@.recipients).len() == self@.recipients.len());
                assert forall|k: int|
                    0 <= k < pk_list@.len() implies usable_key(
                    (#[trigger] pk_list@[k])@,
                ) by {
                    assert(str_views(pk_list@)[k] == pk_list@[k]@);
                    assert(str_views(pk_list@)[k] == pk_seq(self@.recipients)[k]);
                    assert(pk_seq(self@.recipients)[k] == self@.recipients[k].public_key);
                    assert(crate::keys::is_canonical_pk(self@.recipients[k].public_key));
                    assert(!degenerate_pk(self@.recipients[k].public_key));
                }
            }
            match encrypt_envelope(plaintext, &pk_list) {
                Ok(env) => (PutStatus::Encrypted, Some(env)),
                Err(_) => {
                    proof {
                        assert(false);
                    }
                    (PutStatus::Encrypted, None)
                },
            }
        };
        let fresh = StoredSecret { name: name.clone(), encrypted_to: pk_list, body, stale: false };
        proof {
            if fresh@.body matches Some(b) {
                assert(crate::envelope::canon_views(fresh.encrypted_to@) =~= str_views(
                    fresh.encrypted_to@,
                ));
            }
            assert(fresh_secret(fresh@, name@, plaintext@, pk_seq(self@.recipients)));
        }
        let found = find_secret(&self.secrets, name);
        let mut updated = clone_secrets(&self.secrets);
        proof {
            assert(updated@.len() == self@.secrets.len());
        }
        match found {
            Some(idx) => {
                updated.remove(idx);
                updated.insert(idx, fresh);
                proof {
                    assert(sec_views(updated@) =~= self@.secrets.update(idx as int, fresh@));
                }
            },
            None => {
                updated.push(fresh);
                proof {
                    assert(sec_views(updated@) =~= self@.secrets.push(fresh@));
                    assert(sec_views(updated@).take(self@.secrets.len() as int) =~= self@.secrets);
                }
            },
        }
        self.secrets = updated;
        status
    }

    /// Decrypts the secret stored under `name` with the supplied private
    /// key. Fails with `NotFound` for an absent name, `MalformedKey` for a
    /// key that does not parse, `AccessDenied` when the key is not among
    /// the recipients the secret was encrypted to, and `Corrupted` when
    /// the envelope fails integrity verification.
    pub fn get_secret(&self, name: &String, private_key: &String) -> (r: Result<
        Vec<u8>,
        VaultError,
    >)
        ensures
            !contains_secret(self@.secrets, name@) ==> r == Err::<Vec<u8>, VaultError>(
                VaultError::NotFound,
            ),
            contains_secret(self@.secrets, name@) && derived_public(private_key@) is None ==> r
                == Err::<Vec<u8>, VaultError>(VaultError::MalformedKey),
            contains_secret(self@.secrets, name@) && derived_public(private_key@) is Some
                ==> exists|i: int|
                #![trigger self@.secrets[i].name]
                {
                    &&& 0 <= i < self@.secrets.len() && self@.secrets[i].name == name@
                    &&& forall|j: int| 0 <= j < i ==> self@.secrets[j].name != name@
                    &&& match self@.secrets[i].body {
                        None => r == Err::<Vec<u8>, VaultError>(VaultError::AccessDenied),
                        Some(b) => match decrypt_of(b, private_key@) {
                            Ok(p) => r matches Ok(v) && v@ == p,
                            Err(no_match) => r == Err::<Vec<u8>, VaultError>(
                                if no_match {
                                    VaultError::AccessDenied
                                } else {
                                    VaultError::Corrupted
                                },
                            ),
                        },
                    }
                },
    {
        let idx = match find_secret(&self.secrets, name) {
            Some(i) => i,
            None => {
                return Err(VaultError::NotFound);
            },
        };
        if age_derive_public(private_key).is_none() {
            return Err(VaultError::MalformedKey);
        }
        match &self.secrets[idx].body {
            None => Err(VaultError::AccessDenied),
            Some(b) => decrypt_envelope(b, private_key),
        }
    }


    /// Authorizes a public key to decrypt this vault's secrets and
    /// re-encrypts every stored secret to the enlarged recipient set,
    /// using the supplied private keys to recover each plaintext. Secrets
    /// no supplied key can decrypt are marked stale and reported by name;
    /// re-adding a present key changes nothing. Fails with `MalformedKey`
    /// for a key that does not parse.
    pub fn add_recipient(
        &mut self,
        public_key: &String,
        source_name: &String,
        available_keys: &Vec<String>,
    ) -> (r: Result<ReencryptReport, VaultError>)
        ensures
            !usable_key(public_key@) ==> (r matches Err(e) && e == VaultError::MalformedKey
                && final(self)@ == old(self)@),
            usable_key(public_key@) ==> (crate::keys::recipient_canon(public_key@) matches Some(c)
                && (if pk_seq(old(self)@.recipients).contains(c) {
                r matches Ok(rep) && rep@.len() == 0 && final(self)@ == old(self)@
            } else {
                r matches Ok(rep) && {
                    &&& final(self)@.recipients == old(self)@.recipients.push(
                        RecipientView { public_key: c, source_name: source_name@ },
                    )
                    &&& final(self)@.secrets.len() == old(self)@.secrets.len()
                    &&& forall|i: int|
                        0 <= i < old(self)@.secrets.len() ==> secret_outcome(
                            #[trigger] final(self)@.secrets[i],
                            old(self)@.secrets[i],
                            pk_seq(final(self)@.recipients),
                            str_views(available_keys@),
                            rep@,
                        )
                    &&& forall|x: Seq<char>|
                        #[trigger] rep@.contains(x) ==> contains_secret(old(self)@.secrets, x)
                }
            })),
    {
        proof {
            use_type_invariant(&*self);
        }
        let (new_recips, res) = entries_with_added(&self.recipients, public_key, source_name);
        let changed = match res {
            Err(e) => {
                return Err(e);
            },
            Ok(c) => c,
        };
        if !changed {
            let rep = ReencryptReport { unrotated: Vec::new() };
            proof {
                assert(rep@ =~= Seq::<Seq<char>>::empty());
            }
            return Ok(rep);
        }
        let new_pks = collect_pks(&new_recips);
        let failed = self.run_cascade(new_recips, new_pks, available_keys);
        Ok(ReencryptReport { unrotated: failed })
    }

    /// Withdraws a public key from the recipient set and re-encrypts every
    /// stored secret to the shrunken set, so that the removed key can no
    /// longer decrypt anything stored here. Secrets no supplied key can
    /// decrypt are marked stale and reported by name; removing an absent
    /// or unparsable key changes nothing.
    pub fn remove_recipient(&mut self, public_key: &String, available_keys: &Vec<String>) -> (r:
        ReencryptReport)
        ensures
            crate::keys::recipient_canon(public_key@) is None ==> r@.len() == 0 && final(self)@
                == old(self)@,
            crate::keys::recipient_canon(public_key@) matches Some(c) ==> (if !pk_seq(
                old(self)@.recipients,
            ).contains(c) {
                r@.len() == 0 && final(self)@ == old(self)@
            } else {
                {
                    &&& exists|i: int|
                        #![trigger old(self)@.recipients[i].public_key]
                        {
                            &&& 0 <= i < old(self)@.recipients.len() && old(
                                self,
                            )@.recipients[i].public_key == c
                            &&& forall|j: int|
                                0 <= j < i ==> old(self)@.recipients[j].public_key != c
                            &&& final(self)@.recipients == old(self)@.recipients.remove(i)
                        }
                    &&& final(self)@.secrets.len() == old(self)@.secrets.len()
                    &&& forall|i: int|
                        0 <= i < old(self)@.secrets.len() ==> secret_outcome(
                            #[trigger] final(self)@.secrets[i],
                            old(self)@.secrets[i],
                            pk_seq(final(self)@.recipients),
                            str_views(available_keys@),
                            r@,
                        )
                    &&& forall|x: Seq<char>|
                        #[trigger] r@.contains(x) ==> contains_secret(old(self)@.secrets, x)
                }
            }),
    {
        proof {
            use_type_invariant(&*self);
        }
        let (new_recips, changed) = entries_with_removed(&self.recipients, public_key);
        if !changed {
            let rep = ReencryptReport { unrotated: Vec::new() };
            proof {
                assert(rep@ =~= Seq::<Seq<char>>::empty());
            }
            return rep;
        }
        let new_pks = collect_pks(&new_recips);
        let failed = self.run_cascade(new_recips, new_pks, available_keys);
        ReencryptReport { unrotated: failed }
    }

    /// Re-runs the encryption cascade against the current recipient set,
    /// rotating stale secrets whose plaintext one of the supplied private
    /// keys can still recover.
    pub fn reencrypt_all(&mut self, available_keys: &Vec<String>) -> (r: ReencryptReport)
        ensures
            final(self)@.recipients == old(self)@.recipients,
            final(self)@.secrets.len() == old(self)@.secrets.len(),
            forall|i: int|
                0 <= i < old(self)@.secrets.len() ==> secret_outcome(
                    #[trigger] final(self)@.secrets[i],
                    old(self)@.secrets[i],
                    pk_seq(old(self)@.recipients),
                    str_views(available_keys@),
                    r@,
                ),
            forall|x: Seq<char>|
                #[trigger] r@.contains(x) ==> contains_secret(old(self)@.secrets, x),
    {
        proof {
            use_type_invariant(&*self);
        }
        let new_recips = clone_entries(&self.recipients);
        let new_pks = collect_pks(&new_recips);
        let failed = self.run_cascade(new_recips, new_pks, available_keys);
        ReencryptReport { unrotated: failed }
    }

    /// Replaces the recipients and re-encrypts the secrets in one step,
    /// keeping the vault's invariant across the change.
    fn run_cascade(
        &mut self,
        new_recips: Vec<RecipientEntry>,
        new_pks: Vec<String>,
        available_keys: &Vec<String>,
    ) -> (failed: Vec<String>)
        requires
            old(self).inv(),
            rc_wf(rc_views(new_recips@)),
            str_views(new_pks@) == pk_seq(rc_views(new_recips@)),
        ensures
            final(self)@.recipients == rc_views(new_recips@),
            final(self)@.secrets.len() == old(self)@.secrets.len(),
            forall|i: int|
                0 <= i < old(self)@.secrets.len() ==> secret_outcome(
                    #[trigger] final(self)@.secrets[i],
                    old(self)@.secrets[i],
                    pk_seq(rc_views(new_recips@)),
                    str_views(available_keys@),
                    str_views(failed@),
                ),
            forall|x: Seq<char>|
                #[trigger] str_views(failed@).contains(x) ==> contains_secret(
                    old(self)@.secrets,
                    x,
                ),
    {
        proof {
            assert(str_views(new_pks@).len() == new_pks@.len());
            assert(pk_seq(rc_views(new_recips@)).len() == rc_views(new_recips@).len());
            assert forall|k: int|
                0 <= k < new_pks@.len() implies crate::keys::is_canonical_pk(
                (#[trigger] new_pks@[k])@,
            ) && !degenerate_pk(new_pks@[k]@) by {
                assert(str_views(new_pks@)[k] == new_pks@[k]@);
                assert(pk_seq(rc_views(new_recips@))[k] == rc_views(new_recips@)[k].public_key);
                assert(crate::keys::is_canonical_pk(rc_views(new_recips@)[k].public_key));
                assert(!degenerate_pk(rc_views(new_recips@)[k].public_key));
            }
        }
        let (rotated, failed) = rotate_all(&self.secrets, &new_pks, available_keys);
        let ghost old_secrets = self@.secrets;
        let ghost newpks_v = str_views(new_pks@);
        let ghost keys_v = str_views(available_keys@);
        let ghost failed_v = str_views(failed@);
        proof {
            let new_s = sec_views(rotated@);
            assert forall|i: int|
                0 <= i < new_s.len() implies #[trigger] new_s[i].name == old_secrets[i].name
                && (!new_s[i].stale ==> new_s[i].encrypted_to == pk_seq(rc_views(new_recips@)))
                && (new_s[i].body is None <==> new_s[i].encrypted_to.len() == 0) by {
                assert(secret_outcome(new_s[i], old_secrets[i], newpks_v, keys_v, failed_v));
                if failed_v.contains(old_secrets[i].name) {
                    assert(new_s[i] == (SecretView { stale: true, ..old_secrets[i] }));
                } else {
                    assert(rotated_from(new_s[i], old_secrets[i], newpks_v, keys_v));
                }
            }
        }
        *self = Vault { recipients: new_recips, secrets: rotated };
        failed
    }

    /// Removes the secret stored under `name`; an absent name is a
    /// `NotFound` error.
    pub fn remove_secret(&mut self, name: &String) -> (r: Result<(), VaultError>)
        ensures
            final(self)@.recipients == old(self)@.recipients,
            !contains_secret(old(self)@.secrets, name@) ==> r == Err::<(), VaultError>(
                VaultError::NotFound,
            ) && final(self)@.secrets == old(self)@.secrets,
            contains_secret(old(self)@.secrets, name@) ==> (r == Ok::<(), VaultError>(())
                && exists|i: int|
                #![trigger old(self)@.secrets[i].name]
                {
                    &&& 0 <= i < old(self)@.secrets.len() && old(self)@.secrets[i].name == name@
                    &&& forall|j: int| 0 <= j < i ==> old(self)@.secrets[j].name != name@
                    &&& final(self)@.secrets == old(self)@.secrets.remove(i)
                }),
    {
        proof {
            use_type_invariant(&*self);
        }
        let idx = match find_secret(&self.secrets, name) {
            Some(i) => i,
            None => {
                return Err(VaultError::NotFound);
            },
        };
        let mut updated = clone_secrets(&self.secrets);
        proof {
            assert(updated@.len() == self@.secrets.len());
        }
        updated.remove(idx);
        proof {
            assert(sec_views(updated@) =~= self@.secrets.remove(idx as int));
        }
        self.secrets = updated;
        Ok(())
    }
}

} // verus!
