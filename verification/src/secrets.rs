//! Passwords kept in the platform keyring, one entry per service and user.
use vstd::prelude::*;

use keyring_core::Entry;

use crate::keyring::{entry_get_password, entry_set_password, new_entry};
use crate::APP_NAME;

verus! {

/// A keyring entry, with the keyring service and the user it was made for.
#[derive(Debug)]
pub struct KeyringEntry {
    pub(crate) entry: Entry,
    pub(crate) service: String,
    pub(crate) user: String,
}

/// The keyring service and the user an entry was made for.
pub struct KeyringEntryView {
    pub service: Seq<char>,
    pub user: Seq<char>,
}

impl View for KeyringEntry {
    type V = KeyringEntryView;

    closed spec fn view(&self) -> KeyringEntryView {
        KeyringEntryView { service: self.service@, user: self.user@ }
    }
}

/// Why a keyring operation failed.
#[derive(Debug)]
pub enum SecretError {
    /// The keyring refused to create the entry.
    EntryCreate(keyring_core::Error),
    /// The keyring refused to store the password.
    SavePassword { service: String, username: String, source: keyring_core::Error },
    /// The keyring could not give the password back.
    LoadPassword { service: String, username: String, source: keyring_core::Error },
}

/// A service whose password the app keeps.
#[derive(Debug, Clone, Copy, PartialEq, Eq, Structural)]
pub enum SecretService {
    TypingCom,
}

impl SecretService {
    /// The service's name.
    pub open spec fn name(self) -> Seq<char> {
        match self {
            SecretService::TypingCom => "typing.com"@,
        }
    }

    pub fn as_str(&self) -> (r: &'static str)
        ensures
            r@ == self.name(),
    {
        match self {
            SecretService::TypingCom => "typing.com",
        }
    }
}

/// The keyring service under which the app keeps the password of
/// `service`: the app's name, a colon, and the service's name.
pub open spec fn keyring_service(service: SecretService) -> Seq<char> {
    APP_NAME@ + ":"@ + service.name()
}

/// The keyring service under which the app keeps the password of
/// `service` (see [`keyring_service`]).
pub fn keyring_service_name(service: &SecretService) -> (r: String)
    ensures
        r@ == keyring_service(*service),
{
    let mut name = APP_NAME.to_owned();
    name.append(":");
    name.append(service.as_str());
    name
}

/// What looking an entry up reports, given what the store answered: the
/// entry it built, or its refusal as [`SecretError::EntryCreate`].
pub fn entry_result(outcome: Result<KeyringEntry, keyring_core::Error>) -> (r: Result<
    KeyringEntry,
    SecretError,
>)
    ensures
        match outcome {
            Ok(e) => r == Ok::<KeyringEntry, SecretError>(e),
            Err(x) => r matches Err(SecretError::EntryCreate(source)) && source == x,
        },
{
    match outcome {
        Ok(entry) => Ok(entry),
        Err(source) => Err(SecretError::EntryCreate(source)),
    }
}

/// The entry that holds the password of `username` for `service`.
fn entry(service: &SecretService, username: &str) -> (r: Result<KeyringEntry, SecretError>)
    ensures
        r matches Ok(k) ==> k@.service == keyring_service(*service) && k@.user == username@,
        r matches Err(e) ==> e is EntryCreate,
{
    entry_result(new_entry(keyring_service_name(service).as_str(), username))
}

/// What saving a password reports, given what the store answered.
pub fn save_result(
    service: &SecretService,
    username: &str,
    outcome: Result<(), keyring_core::Error>,
) -> (r: Result<(), SecretError>)
    ensures
        match outcome {
            Ok(()) => r is Ok,
            Err(e) => r matches Err(SecretError::SavePassword { service: s, username: u, source })
                && s@ == service.name() && u@ == username@ && source == e,
        },
{
    match outcome {
        Ok(()) => Ok(()),
        Err(source) => Err(
            SecretError::SavePassword {
                service: service.as_str().to_owned(),
                username: username.to_owned(),
                source,
            },
        ),
    }
}

/// What loading a password reports, given what the store answered.
pub fn load_result(
    service: &SecretService,
    username: &str,
    outcome: Result<String, keyring_core::Error>,
) -> (r: Result<String, SecretError>)
    ensures
        match outcome {
            Ok(password) => r matches Ok(p) && p@ == password@,
            Err(e) => r matches Err(SecretError::LoadPassword { service: s, username: u, source })
                && s@ == service.name() && u@ == username@ && source == e,
        },
{
    match outcome {
        Ok(password) => Ok(password),
        Err(source) => Err(
            SecretError::LoadPassword {
                service: service.as_str().to_owned(),
                username: username.to_owned(),
                source,
            },
        ),
    }
}

/// Keeps `password` as the password of `username` for `service`, in the
/// entry named by [`keyring_service`].
pub fn save_password(service: SecretService, username: &str, password: &str) -> (r: Result<
    (),
    SecretError,
>)
    ensures
        match r {
            Ok(()) => true,
            Err(SecretError::EntryCreate(_)) => true,
            Err(SecretError::SavePassword { service: s, username: u, .. }) => s@ == service.name()
                && u@ == username@,
            Err(SecretError::LoadPassword { .. }) => false,
        },
{
    let entry = entry(&service, username)?;
    save_result(&service, username, entry_set_password(&entry, password))
}

/// The password of `username` for `service`, from the entry named by
/// [`keyring_service`].
pub fn load_password(service: SecretService, username: &str) -> (r: Result<String, SecretError>)
    ensures
        match r {
            Ok(_) => true,
            Err(SecretError::EntryCreate(_)) => true,
            Err(SecretError::LoadPassword { service: s, username: u, .. }) => s@ == service.name()
                && u@ == username@,
            Err(SecretError::SavePassword { .. }) => false,
        },
{
    let entry = entry(&service, username)?;
    load_result(&service, username, entry_get_password(&entry))
}

} // verus!
