//! The calls into the keyring crate.
use vstd::prelude::*;

use keyring_core::Entry;

use crate::secrets::KeyringEntry;

verus! {

/// `keyring_core::Entry`, carried opaque.
#[verifier::external_type_specification]
#[verifier::external_body]
pub struct ExKeyringEntry(keyring_core::Entry);

/// `keyring_core::Error`, carried opaque.
#[verifier::external_type_specification]
#[verifier::external_body]
pub struct ExKeyringError(keyring_core::Error);

/// `keyring_core::Entry::new`: the entry of the default credential store
/// for the keyring service `service` and the user `user`, kept together with
/// that pair.  Whether the store builds it rests on the store that the
/// process has set as default, so nothing is stated of that; what is stated
/// is only that an entry given back is the one asked for `service` and
/// `user`.
#[verifier::external_body]
pub(crate) fn new_entry(service: &str, user: &str) -> (r: Result<KeyringEntry, keyring_core::Error>)
    ensures
        r matches Ok(k) ==> k@.service == service@ && k@.user == user@,
{
    match Entry::new(service, user) {
        Ok(entry) => Ok(KeyringEntry { entry, service: service.to_owned(), user: user.to_owned() }),
        Err(e) => Err(e),
    }
}

/// `keyring_core::Entry::set_password`: asks the entry's store to keep
/// `password`.  Whether it succeeds rests on the store.
#[verifier::external_body]
pub(crate) fn entry_set_password(entry: &KeyringEntry, password: &str) -> (r: Result<(), keyring_core::Error>) {
    entry.entry.set_password(password)
}

/// `keyring_core::Entry::get_password`: asks the entry's store for the
/// password it keeps.  What comes back rests on the store.
#[verifier::external_body]
pub(crate) fn entry_get_password(entry: &KeyringEntry) -> (r: Result<String, keyring_core::Error>) {
    entry.entry.get_password()
}

} // verus!
