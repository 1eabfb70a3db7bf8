//! The identity subcommands, as plain values: the dispatcher maps each one
//! to the identity-store operation it stands for and hands back a typed
//! reply. Reading files, clocks and terminals stays with the caller.

use vstd::prelude::*;

verus! {

use crate::VaultError;
use crate::identity_store::{IdentityStore, IdentityRecord, IdentityView, rec_views, contains_name};
use crate::keys::{derived_public, str_views};
use crate::record::import_key_spec;

/// One identity subcommand. An import carries the lines of the identity
/// record to import; a delete carries only the name, and the caller says
/// which public keys are active vault recipients and so block deletion.
pub enum IdentityCommand {
    Ls,
    Pubkey { name: String },
    Keygen { name: String },
    Import { name: String, record_lines: Vec<String> },
    Delete { name: String },
}

/// What a subcommand answers with.
pub enum CliReply {
    Listing(Vec<IdentityRecord>),
    PublicKey(String),
    Created(String),
    Deleted,
}

/// Runs one identity subcommand against the store. Listing returns the
/// identities ordered by ascending creation time; `Pubkey` answers with the
/// stored public key of the named identity; `Keygen` and `Import` register
/// a new identity and answer with its public key; `Delete` removes one,
/// refusing with `InUse` while its key is among `active_recipient_keys`.
pub fn cli_identity(
    store: &mut IdentityStore,
    command: &IdentityCommand,
    now: u64,
    active_recipient_keys: &Vec<String>,
) -> (r: Result<CliReply, VaultError>)
    ensures
        match command {
            IdentityCommand::Ls => final(store)@ == old(store)@ && (r matches Ok(rep)
                && rep matches CliReply::Listing(l) && rec_views(l@).to_multiset() == old(
                store,
            )@.to_multiset() && (forall|i: int, j: int|
                0 <= i < j < l@.len() ==> #[trigger] l@[i].created_at
                    <= #[trigger] l@[j].created_at)),
            IdentityCommand::Pubkey { name } => final(store)@ == old(store)@ && (if contains_name(
                old(store)@,
                name@,
            ) {
                r matches Ok(rep) && rep matches CliReply::PublicKey(pk) && exists|i: int|
                    #![trigger old(store)@[i].name]
                    0 <= i < old(store)@.len() && old(store)@[i].name == name@ && (forall|j: int|
                        0 <= j < i ==> old(store)@[j].name != name@) && pk@ == old(
                        store,
                    )@[i].public_key
            } else {
                r == Err::<CliReply, VaultError>(VaultError::NotFound)
            }),
            IdentityCommand::Keygen { name } => {
                &&& contains_name(old(store)@, name@) ==> r == Err::<CliReply, VaultError>(
                    VaultError::AlreadyExists,
                ) && final(store)@ == old(store)@
                &&& !contains_name(old(store)@, name@) ==> (r matches Ok(rep)
                    && rep matches CliReply::Created(pk) && {
                    &&& final(store)@.len() == old(store)@.len() + 1
                    &&& final(store)@.take(old(store)@.len() as int) == old(store)@
                    &&& final(store)@.last().name == name@
                    &&& final(store)@.last().public_key == pk@
                    &&& final(store)@.last().created_at == now
                    &&& derived_public(final(store)@.last().private_key) == Some(pk@)
                })
            },
            IdentityCommand::Import { name, record_lines } => {
                &&& contains_name(old(store)@, name@) ==> r == Err::<CliReply, VaultError>(
                    VaultError::AlreadyExists,
                ) && final(store)@ == old(store)@
                &&& !contains_name(old(store)@, name@) ==> match import_key_spec(
                    str_views(record_lines@),
                ) {
                    Err(e) => r == Err::<CliReply, VaultError>(e) && final(store)@ == old(store)@,
                    Ok(k) => r matches Ok(rep) && rep matches CliReply::Created(pk)
                        && derived_public(k) == Some(pk@) && final(store)@ == old(store)@.push(
                        IdentityView {
                            name: name@,
                            private_key: k,
                            public_key: pk@,
                            created_at: now,
                        },
                    ),
                }
            },
            IdentityCommand::Delete { name } => {
                &&& !contains_name(old(store)@, name@) ==> r == Err::<CliReply, VaultError>(
                    VaultError::NotFound,
                ) && final(store)@ == old(store)@
                &&& contains_name(old(store)@, name@) ==> exists|i: int|
                    #![trigger old(store)@[i].name]
                    {
                        &&& 0 <= i < old(store)@.len() && old(store)@[i].name == name@
                        &&& forall|j: int| 0 <= j < i ==> old(store)@[j].name != name@
                        &&& if str_views(active_recipient_keys@).contains(
                            old(store)@[i].public_key,
                        ) {
                            r == Err::<CliReply, VaultError>(VaultError::InUse) && final(store)@
                                == old(store)@
                        } else {
                            r matches Ok(rep) && rep is Deleted && final(store)@ == old(
                                store,
                            )@.remove(i)
                        }
                    }
            },
        },
{
    match command {
        IdentityCommand::Ls => Ok(CliReply::Listing(store.list())),
        IdentityCommand::Pubkey { name } => match store.get(name) {
            Ok(rec) => Ok(CliReply::PublicKey(rec.public_key.clone())),
            Err(e) => Err(e),
        },
        IdentityCommand::Keygen { name } => match store.create_generated(name, now) {
            Ok(pk) => Ok(CliReply::Created(pk)),
            Err(e) => Err(e),
        },
        IdentityCommand::Import { name, record_lines } => match store.create_imported(
            name,
            record_lines,
            now,
        ) {
            Ok(pk) => Ok(CliReply::Created(pk)),
            Err(e) => Err(e),
        },
        IdentityCommand::Delete { name } => match store.delete(name, active_recipient_keys) {
            Ok(()) => Ok(CliReply::Deleted),
            Err(e) => Err(e),
        },
    }
}

} // verus!
