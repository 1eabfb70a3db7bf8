//! The identity store: a registry mapping each human-chosen name to exactly
//! one identity, with globally unique names, derived public keys, and
//! listings ordered by creation time.

use vstd::prelude::*;

verus! {

use crate::VaultError;
use crate::keys::{derived_public, is_canonical_pk, str_views, age_generate_keypair,
    age_derive_public};
use crate::record::{import_key_spec, identity_key_from_record};

/// One registered identity: a name, its private key material, the public
/// key derived from it, and the creation timestamp in seconds.
pub struct IdentityRecord {
    pub name: String,
    pub private_key: String,
    pub public_key: String,
    pub created_at: u64,
}

pub ghost struct IdentityView {
    pub name: Seq<char>,
    pub private_key: Seq<char>,
    pub public_key: Seq<char>,
    pub created_at: u64,
}

impl View for IdentityRecord {
    type V = IdentityView;

    open spec fn view(&self) -> IdentityView {
        IdentityView {
            name: self.name@,
            private_key: self.private_key@,
            public_key: self.public_key@,
            created_at: self.created_at,
        }
    }
}

pub open spec fn rec_views(v: Seq<IdentityRecord>) -> Seq<IdentityView> {
    v.map_values(|r: IdentityRecord| r@)
}

pub open spec fn contains_name(s: Seq<IdentityView>, name: Seq<char>) -> bool {
    exists|i: int| 0 <= i < s.len() && s[i].name == name
}

fn clone_record(r: &IdentityRecord) -> (res: IdentityRecord)
    ensures
        res@ == r@,
{
    IdentityRecord {
        name: r.name.clone(),
        private_key: r.private_key.clone(),
        public_key: r.public_key.clone(),
        created_at: r.created_at,
    }
}

fn clone_records(v: &Vec<IdentityRecord>) -> (r: Vec<IdentityRecord>)
    ensures
        rec_views(r@) == rec_views(v@),
{
    let n = v.len();
    let mut out: Vec<IdentityRecord> = Vec::new();
    let mut i: usize = 0;
    while i < n
        invariant
            n == v@.len(),
            0 <= i <= n,
            out@.len() == i as int,
            forall|j: int| 0 <= j < i as int ==> rec_views(out@)[j] == rec_views(v@)[j],
        decreases n - i,
    {
        out.push(clone_record(&v[i]));
        i += 1;
    }
    proof {
        assert(rec_views(out@) =~= rec_views(v@));
    }
    out
}

/// The registry of identities, in the order they were created.
pub struct IdentityStore {
    entries: Vec<IdentityRecord>,
}

impl View for IdentityStore {
    type V = Seq<IdentityView>;

    closed spec fn view(&self) -> Seq<IdentityView> {
        rec_views(self.entries@)
    }
}

impl IdentityStore {
    /// Names are unique, and every record's public key is derived from its
    /// private key.
    #[verifier::type_invariant]
    spec fn inv(self) -> bool {
        &&& forall|i: int, j: int|
            0 <= i < j < self@.len() ==> #[trigger] self@[i].name != #[trigger] self@[j].name
        &&& forall|i: int|
            0 <= i < self@.len() ==> derived_public(#[trigger] self@[i].private_key) == Some(
                self@[i].public_key,
            )
        &&& forall|i: int| 0 <= i < self@.len() ==> is_canonical_pk(#[trigger] self@[i].public_key)
    }

    pub fn new() -> (r: IdentityStore)
        ensures
            r@ == Seq::<IdentityView>::empty(),
    {
        let s = IdentityStore { entries: Vec::new() };
        proof {
            assert(s@ =~= Seq::<IdentityView>::empty());
        }
        s
    }

    fn find(&self, name: &String) -> (r: Option<usize>)
        ensures
            match r {
                Some(i) => i < self@.len() && self@[i as int].name == name@ && forall|j: int|
                    0 <= j < i as int ==> self@[j].name != name@,
                None => !contains_name(self@, name@),
            },
    {
        let n = self.entries.len();
        let mut i: usize = 0;
        while i < n
            invariant
                n == self@.len(),
                0 <= i <= n,
                forall|j: int| 0 <= j < i as int ==> self@[j].name != name@,
            decreases n - i,
        {
            if self.entries[i].name == *name {
                return Some(i);
            }
            i += 1;
        }
        None
    }

    /// Registers a freshly generated identity under `name`, returning its
    /// public key; a taken name fails with `AlreadyExists` and leaves the
    /// store unchanged.
    pub fn create_generated(&mut self, name: &String, now: u64) -> (r: Result<String, VaultError>)
        ensures
            contains_name(old(self)@, name@) ==> r == Err::<String, VaultError>(
                VaultError::AlreadyExists,
            ) && final(self)@ == old(self)@,
            !contains_name(old(self)@, name@) ==> (r matches Ok(pk) && {
                &&& final(self)@.len() == old(self)@.len() + 1
                &&& final(self)@.take(old(self)@.len() as int) == old(self)@
                &&& final(self)@.last().name == name@
                &&& final(self)@.last().public_key == pk@
                &&& final(self)@.last().created_at == now
                &&& derived_public(final(self)@.last().private_key) == Some(pk@)
            }),
    {
        proof {
            use_type_invariant(&*self);
        }
        if self.find(name).is_some() {
            return Err(VaultError::AlreadyExists);
        }
        let (sk, pk) = age_generate_keypair();
        let pk_out = pk.clone();
        let rec = IdentityRecord {
            name: name.clone(),
            private_key: sk,
            public_key: pk,
            created_at: now,
        };
        let mut updated = clone_records(&self.entries);
        updated.push(rec);
        proof {
            assert(rec_views(updated@) =~= rec_views(self.entries@).push(rec@));
        }
        self.entries = updated;
        proof {
            assert(self@.take(old(self)@.len() as int) =~= old(self)@);
        }
        Ok(pk_out)
    }

    /// Registers an identity imported from an identity record, validating
    /// that the record holds exactly one native key that parses; the key
    /// material is stored verbatim. A taken name fails with `AlreadyExists`
    /// and leaves the store unchanged.
    pub fn create_imported(&mut self, name: &String, record_lines: &Vec<String>, now: u64) -> (r:
        Result<String, VaultError>)
        ensures
            contains_name(old(self)@, name@) ==> r == Err::<String, VaultError>(
                VaultError::AlreadyExists,
            ) && final(self)@ == old(self)@,
            !contains_name(old(self)@, name@) ==> match import_key_spec(str_views(record_lines@)) {
                Err(e) => r == Err::<String, VaultError>(e) && final(self)@ == old(self)@,
                Ok(k) => r matches Ok(pk) && derived_public(k) == Some(pk@) && final(self)@ == old(
                    self,
                )@.push(
                    IdentityView {
                        name: name@,
                        private_key: k,
                        public_key: pk@,
                        created_at: now,
                    },
                ),
            },
    {
        proof {
            use_type_invariant(&*self);
        }
        if self.find(name).is_some() {
            return Err(VaultError::AlreadyExists);
        }
        let key = match identity_key_from_record(record_lines) {
            Ok(k) => k,
            Err(e) => {
                return Err(e);
            },
        };
        let pk = match age_derive_public(&key) {
            Some(p) => p,
            None => {
                return Err(VaultError::MalformedKey);
            },
        };
        let pk_out = pk.clone();
        let rec = IdentityRecord {
            name: name.clone(),
            private_key: key,
            public_key: pk,
            created_at: now,
        };
        let mut updated = clone_records(&self.entries);
        updated.push(rec);
        proof {
            assert(rec_views(updated@) =~= rec_views(self.entries@).push(rec@));
        }
        self.entries = updated;
        proof {
            assert(self@ =~= old(self)@.push(self@.last()));
        }
        Ok(pk_out)
    }

    /// Looks a name up, returning the identity registered under it or
    /// `NotFound`.
    pub fn get(&self, name: &String) -> (r: Result<&IdentityRecord, VaultError>)
        ensures
            contains_name(self@, name@) ==> (r matches Ok(rec) && exists|i: int|
                #![auto]
                0 <= i < self@.len() && self@[i].name == name@ && (forall|j: int|
                    0 <= j < i ==> self@[j].name != name@) && rec@ == self@[i]),
            !contains_name(self@, name@) ==> r == Err::<&IdentityRecord, VaultError>(
                VaultError::NotFound,
            ),
    {
        match self.find(name) {
            Some(i) => Ok(&self.entries[i]),
            None => Err(VaultError::NotFound),
        }
    }

    /// Lists all identities ordered by ascending creation time, whatever
    /// order the backing storage yields them in.
    pub fn list(&self) -> (r: Vec<IdentityRecord>)
        ensures
            rec_views(r@).to_multiset() == self@.to_multiset(),
            forall|i: int, j: int|
                0 <= i < j < r@.len() ==> #[trigger] r@[i].created_at <= #[trigger] r@[j].created_at,
    {
        broadcast use vstd::seq_lib::group_to_multiset_ensures;

        let n = self.entries.len();
        let mut out: Vec<IdentityRecord> = Vec::new();
        let mut i: usize = 0;
        proof {
            assert(rec_views(out@) =~= Seq::<IdentityView>::empty());
            assert(self@.take(0) =~= Seq::<IdentityView>::empty());
            assert(Seq::<IdentityView>::empty().to_multiset() =~= rec_views(out@).to_multiset());
        }
        while i < n
            invariant
                n == self@.len(),
                0 <= i <= n,
                rec_views(out@).to_multiset() == self@.take(i as int).to_multiset(),
                forall|p: int, q: int|
                    0 <= p < q < out@.len() ==> #[trigger] out@[p].created_at
                        <= #[trigger] out@[q].created_at,
            decreases n - i,
        {
            broadcast use vstd::seq_lib::group_to_multiset_ensures;

            let rec = clone_record(&self.entries[i]);
            let m = out.len();
            let mut pos: usize = 0;
            while pos < m && out[pos].created_at <= rec.created_at
                invariant
                    m == out@.len(),
                    0 <= pos <= m,
                    forall|k: int| 0 <= k < pos as int ==> #[trigger] out@[k].created_at <= rec.created_at,
                decreases m - pos,
            {
                pos += 1;
            }
            let ghost before = out@;
            out.insert(pos, rec);
            proof {
                assert(self@.take(i as int + 1).drop_last() =~= self@.take(i as int));
                assert(self@.take(i as int + 1) =~= self@.take(i as int).push(self@[i as int]));
                assert(rec_views(out@) =~= rec_views(before).insert(pos as int, rec@));
            }
            i += 1;
        }
        proof {
            assert(self@.take(n as int) =~= self@);
        }
        out
    }

    /// Deletes the identity registered under `name`. Fails with `NotFound`
    /// if the name is absent, and with `InUse` — leaving the record in
    /// place — if its public key is among the keys the caller indicates
    /// are active vault recipients.
    pub fn delete(&mut self, name: &String, blocking_keys: &Vec<String>) -> (r: Result<
        (),
        VaultError,
    >)
        ensures
            !contains_name(old(self)@, name@) ==> r == Err::<(), VaultError>(VaultError::NotFound)
                && final(self)@ == old(self)@,
            contains_name(old(self)@, name@) ==> exists|i: int|
                #![trigger old(self)@[i].name]
                {
                    &&& 0 <= i < old(self)@.len() && old(self)@[i].name == name@
                    &&& forall|j: int| 0 <= j < i ==> old(self)@[j].name != name@
                    &&& if str_views(blocking_keys@).contains(old(self)@[i].public_key) {
                        r == Err::<(), VaultError>(VaultError::InUse) && final(self)@ == old(
                            self,
                        )@
                    } else {
                        r == Ok::<(), VaultError>(()) && final(self)@ == old(self)@.remove(i)
                    }
                },
    {
        proof {
            use_type_invariant(&*self);
        }
        let idx = match self.find(name) {
            Some(i) => i,
            None => {
                return Err(VaultError::NotFound);
            },
        };
        let pk = &self.entries[idx].public_key;
        let m = blocking_keys.len();
        let mut k: usize = 0;
        while k < m
            invariant
                m == blocking_keys@.len(),
                0 <= k <= m,
                self@ == old(self)@,
                idx < self@.len(),
                self@[idx as int].name == name@,
                forall|j: int| 0 <= j < idx as int ==> self@[j].name != name@,
                pk@ == self@[idx as int].public_key,
                forall|j: int| 0 <= j < k as int ==> str_views(blocking_keys@)[j] != pk@,
            decreases m - k,
        {
            if blocking_keys[k] == *pk {
                proof {
                    assert(str_views(blocking_keys@)[k as int] == pk@);
                    assert(str_views(blocking_keys@).contains(
                        old(self)@[idx as int].public_key,
                    ));
                    assert(contains_name(old(self)@, name@));
                }
                return Err(VaultError::InUse);
            }
            k += 1;
        }
        proof {
            assert(!str_views(blocking_keys@).contains(self@[idx as int].public_key));
        }
        let mut updated = clone_records(&self.entries);
        updated.remove(idx);
        proof {
            assert(rec_views(updated@) =~= rec_views(self.entries@).remove(idx as int));
        }
        self.entries = updated;
        proof {
            assert(self@ =~= old(self)@.remove(idx as int));
            assert(idx < old(self)@.len() && old(self)@[idx as int].name == name@);
            assert(forall|j: int| 0 <= j < idx as int ==> old(self)@[j].name != name@);
            assert(!str_views(blocking_keys@).contains(old(self)@[idx as int].public_key));
        }
        Ok(())
    }
}

} // verus!
