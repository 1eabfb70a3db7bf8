//! The recipient set: the ordered collection of public keys authorized to
//! decrypt a vault's secrets, each remembered with the identity name it was
//! derived from. Keys are kept in canonical form and deduplicated by key.

use vstd::prelude::*;

verus! {

use crate::VaultError;
use crate::keys::{recipient_canon, is_canonical_pk, degenerate_pk, usable_key};
use crate::keys::{recipient_normalize, pk_is_degenerate};

/// One authorized recipient: a canonical public key and, for display and
/// audit, the identity name it came from.
pub struct RecipientEntry {
    pub public_key: String,
    pub source_name: String,
}

pub ghost struct RecipientView {
    pub public_key: Seq<char>,
    pub source_name: Seq<char>,
}

impl View for RecipientEntry {
    type V = RecipientView;

    open spec fn view(&self) -> RecipientView {
        RecipientView { public_key: self.public_key@, source_name: self.source_name@ }
    }
}

pub open spec fn rc_views(v: Seq<RecipientEntry>) -> Seq<RecipientView> {
    v.map_values(|r: RecipientEntry| r@)
}

/// The public keys of a recipient sequence, in order.
pub open spec fn pk_seq(s: Seq<RecipientView>) -> Seq<Seq<char>> {
    s.map_values(|r: RecipientView| r.public_key)
}

/// Well-formedness of a recipient sequence: keys canonical, pairwise
/// distinct, and none of them a degenerate (small-order) key.
pub open spec fn rc_wf(s: Seq<RecipientView>) -> bool {
    &&& forall|i: int, j: int|
        0 <= i < j < s.len() ==> #[trigger] s[i].public_key != #[trigger] s[j].public_key
    &&& forall|i: int| 0 <= i < s.len() ==> is_canonical_pk(#[trigger] s[i].public_key)
    &&& forall|i: int| 0 <= i < s.len() ==> !degenerate_pk(#[trigger] s[i].public_key)
}

pub(crate) fn clone_entry(e: &RecipientEntry) -> (r: RecipientEntry)
    ensures
        r@ == e@,
{
    RecipientEntry { public_key: e.public_key.clone(), source_name: e.source_name.clone() }
}

pub(crate) fn clone_entries(v: &Vec<RecipientEntry>) -> (r: Vec<RecipientEntry>)
    ensures
        rc_views(r@) == rc_views(v@),
{
    let n = v.len();
    let mut out: Vec<RecipientEntry> = Vec::new();
    let mut i: usize = 0;
    while i < n
        invariant
            n == v@.len(),
            0 <= i <= n,
            out@.len() == i as int,
            forall|j: int| 0 <= j < i as int ==> rc_views(out@)[j] == rc_views(v@)[j],
        decreases n - i,
    {
        out.push(clone_entry(&v[i]));
        i += 1;
    }
    proof {
        assert(rc_views(out@) =~= rc_views(v@));
    }
    out
}

pub(crate) fn find_pk(v: &Vec<RecipientEntry>, pk: &String) -> (r: Option<usize>)
    ensures
        match r {
            Some(i) => i < v@.len() && rc_views(v@)[i as int].public_key == pk@ && forall|j: int|
                0 <= j < i as int ==> rc_views(v@)[j].public_key != pk@,
            None => !pk_seq(rc_views(v@)).contains(pk@),
        },
{
    let n = v.len();
    let mut i: usize = 0;
    while i < n
        invariant
            n == v@.len(),
            0 <= i <= n,
            forall|j: int| 0 <= j < i as int ==> rc_views(v@)[j].public_key != pk@,
        decreases n - i,
    {
        if v[i].public_key == *pk {
            return Some(i);
        }
        i += 1;
    }
    proof {
        assert forall|k: int| 0 <= k < pk_seq(rc_views(v@)).len() implies pk_seq(rc_views(v@))[k]
            != pk@ by {
            assert(rc_views(v@)[k].public_key != pk@);
        }
    }
    None
}

/// A copy of `v` with the recipient added, together with what `add` reports:
/// an error for a key that does not parse or is degenerate, and otherwise
/// whether the set changed (adding a key already present changes nothing).
pub(crate) fn entries_with_added(
    v: &Vec<RecipientEntry>,
    public_key: &String,
    source_name: &String,
) -> (r: (Vec<RecipientEntry>, Result<bool, VaultError>))
    ensures
        !usable_key(public_key@) ==> r.1 == Err::<bool, VaultError>(VaultError::MalformedKey)
            && rc_views(r.0@) == rc_views(v@),
        usable_key(public_key@) ==> (recipient_canon(public_key@) matches Some(c) && (if pk_seq(
            rc_views(v@),
        ).contains(c) {
            r.1 == Ok::<bool, VaultError>(false) && rc_views(r.0@) == rc_views(v@)
        } else {
            r.1 == Ok::<bool, VaultError>(true) && rc_views(r.0@) == rc_views(v@).push(
                RecipientView { public_key: c, source_name: source_name@ },
            )
        })),
        rc_wf(rc_views(v@)) ==> rc_wf(rc_views(r.0@)),
{
    let canon = match recipient_normalize(public_key) {
        Some(c) => c,
        None => {
            return (clone_entries(v), Err(VaultError::MalformedKey));
        },
    };
    if pk_is_degenerate(&canon) {
        return (clone_entries(v), Err(VaultError::MalformedKey));
    }
    match find_pk(v, &canon) {
        Some(i) => {
            proof {
                assert(pk_seq(rc_views(v@))[i as int] == canon@);
                assert(pk_seq(rc_views(v@)).contains(canon@));
            }
            (clone_entries(v), Ok(false))
        },
        None => {
            let ghost c = canon@;
            let mut out = clone_entries(v);
            out.push(RecipientEntry { public_key: canon, source_name: source_name.clone() });
            proof {
                assert(rc_views(out@) =~= rc_views(v@).push(
                    RecipientView { public_key: c, source_name: source_name@ },
                ));
                if rc_wf(rc_views(v@)) {
                    let n = rc_views(v@).len() as int;
                    assert forall|a: int| 0 <= a < n implies rc_views(v@)[a].public_key != c by {
                        assert(pk_seq(rc_views(v@))[a] == rc_views(v@)[a].public_key);
                    }
                    assert(rc_wf(rc_views(out@)));
                }
            }
            (out, Ok(true))
        },
    }
}

/// A copy of `v` with the recipient removed, together with whether the set
/// changed; removing an absent or unparsable key changes nothing.
pub(crate) fn entries_with_removed(v: &Vec<RecipientEntry>, public_key: &String) -> (r: (
    Vec<RecipientEntry>,
    bool,
))
    ensures
        recipient_canon(public_key@) is None ==> r.1 == false && rc_views(r.0@) == rc_views(v@),
        recipient_canon(public_key@) matches Some(c) ==> (if !pk_seq(rc_views(v@)).contains(c) {
            r.1 == false && rc_views(r.0@) == rc_views(v@)
        } else {
            r.1 == true && exists|i: int|
                #![trigger rc_views(v@)[i].public_key]
                {
                    &&& 0 <= i < rc_views(v@).len() && rc_views(v@)[i].public_key == c
                    &&& forall|j: int| 0 <= j < i ==> rc_views(v@)[j].public_key != c
                    &&& rc_views(r.0@) == rc_views(v@).remove(i)
                }
        }),
        rc_wf(rc_views(v@)) ==> rc_wf(rc_views(r.0@)),
{
    let canon = match recipient_normalize(public_key) {
        Some(c) => c,
        None => {
            return (clone_entries(v), false);
        },
    };
    match find_pk(v, &canon) {
        Some(i) => {
            let mut out = clone_entries(v);
            proof {
                assert(rc_views(out@).len() == rc_views(v@).len());
                assert(out@.len() == v@.len());
            }
            out.remove(i);
            proof {
                assert(pk_seq(rc_views(v@))[i as int] == canon@);
                assert(pk_seq(rc_views(v@)).contains(canon@));
                assert(rc_views(out@) =~= rc_views(v@).remove(i as int));
                if rc_wf(rc_views(v@)) {
                    let old_views = rc_views(v@);
                    let new_views = rc_views(out@);
                    assert forall|a: int| 0 <= a < new_views.len() implies new_views[a] == (
                    if a < i as int {
                        old_views[a]
                    } else {
                        old_views[a + 1]
                    }) by {}
                    assert(rc_wf(new_views));
                }
            }
            (out, true)
        },
        None => (clone_entries(v), false),
    }
}

/// The canonical public keys of the entries, as owned strings.
pub(crate) fn collect_pks(v: &Vec<RecipientEntry>) -> (r: Vec<String>)
    ensures
        crate::keys::str_views(r@) == pk_seq(rc_views(v@)),
{
    let n = v.len();
    let mut out: Vec<String> = Vec::new();
    let mut i: usize = 0;
    while i < n
        invariant
            n == v@.len(),
            0 <= i <= n,
            out@.len() == i as int,
            forall|j: int|
                0 <= j < i as int ==> crate::keys::str_views(out@)[j] == pk_seq(rc_views(v@))[j],
        decreases n - i,
    {
        let ghost before = out@;
        out.push(v[i].public_key.clone());
        proof {
            assert(pk_seq(rc_views(v@))[i as int] == rc_views(v@)[i as int].public_key);
            assert(rc_views(v@)[i as int].public_key == v@[i as int].public_key@);
            assert forall|j: int|
                0 <= j < i as int + 1 implies crate::keys::str_views(out@)[j] == pk_seq(
                rc_views(v@),
            )[j] by {
                if j < i as int {
                    assert(crate::keys::str_views(before)[j] == pk_seq(rc_views(v@))[j]);
                    assert(out@[j] == before[j]);
                } else {
                    assert(crate::keys::str_views(out@)[j] == v@[i as int].public_key@);
                }
            }
        }
        i += 1;
    }
    proof {
        assert(crate::keys::str_views(out@) =~= pk_seq(rc_views(v@)));
    }
    out
}

/// A vault's recipient set: insertion order kept for stable display, no
/// duplicate entries for the same public key.
pub struct RecipientSet {
    members: Vec<RecipientEntry>,
}

impl View for RecipientSet {
    type V = Seq<RecipientView>;

    closed spec fn view(&self) -> Seq<RecipientView> {
        rc_views(self.members@)
    }
}

impl RecipientSet {
    #[verifier::type_invariant]
    spec fn inv(self) -> bool {
        rc_wf(self@)
    }

    pub fn new() -> (r: RecipientSet)
        ensures
            r@ == Seq::<RecipientView>::empty(),
    {
        let s = RecipientSet { members: Vec::new() };
        proof {
            assert(s@ =~= Seq::<RecipientView>::empty());
        }
        s
    }

    /// Adds a public key; idempotent for a key already present. Returns
    /// whether the set changed, or `MalformedKey` for a key that does not
    /// parse or is degenerate.
    pub fn add(&mut self, public_key: &String, source_name: &String) -> (r: Result<
        bool,
        VaultError,
    >)
        ensures
            !usable_key(public_key@) ==> r == Err::<bool, VaultError>(VaultError::MalformedKey)
                && final(self)@ == old(self)@,
            usable_key(public_key@) ==> (recipient_canon(public_key@) matches Some(c) && (if pk_seq(
                old(self)@,
            ).contains(c) {
                r == Ok::<bool, VaultError>(false) && final(self)@ == old(self)@
            } else {
                r == Ok::<bool, VaultError>(true) && final(self)@ == old(self)@.push(
                    RecipientView { public_key: c, source_name: source_name@ },
                )
            })),
    {
        proof {
            use_type_invariant(&*self);
        }
        let (updated, res) = entries_with_added(&self.members, public_key, source_name);
        self.members = updated;
        res
    }

    /// Removes a public key; idempotent for a key that is absent or does
    /// not parse. Returns whether the set changed.
    pub fn remove(&mut self, public_key: &String) -> (r: bool)
        ensures
            recipient_canon(public_key@) is None ==> r == false && final(self)@ == old(self)@,
            recipient_canon(public_key@) matches Some(c) ==> (if !pk_seq(old(self)@).contains(c) {
                r == false && final(self)@ == old(self)@
            } else {
                r == true && exists|i: int|
                    #![trigger old(self)@[i].public_key]
                    {
                        &&& 0 <= i < old(self)@.len() && old(self)@[i].public_key == c
                        &&& forall|j: int| 0 <= j < i ==> old(self)@[j].public_key != c
                        &&& final(self)@ == old(self)@.remove(i)
                    }
            }),
    {
        proof {
            use_type_invariant(&*self);
        }
        let (updated, changed) = entries_with_removed(&self.members, public_key);
        self.members = updated;
        changed
    }

    /// The current recipients, in insertion order.
    pub fn members(&self) -> (r: &Vec<RecipientEntry>)
        ensures
            rc_views(r@) == self@,
    {
        &self.members
    }
}

} // verus!
