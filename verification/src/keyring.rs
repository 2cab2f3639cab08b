//! The API key in the operating system's credential store: an empty key is
//! refused, and every failure of the store becomes an internal error that
//! says which step failed. The store is the platform's own, as `keyring`
//! is built here: the macOS Keychain, the Windows Credential Manager, or the
//! Linux kernel's `keyutils` key storage, which holds keys in memory until
//! the machine restarts.

use vstd::prelude::*;
use crate::text::{lemma_starts_with_concat, push_str, starts_with, string_of};
use crate::types::{AppErrorView, is_error};

verus! {

broadcast use vstd::string::group_string_axioms;

/// The service name the key is stored under.
pub const SERVICE_NAME: &'static str = "VideoTranscriber";

/// The user name the key is stored under.
pub const GROQ_KEY: &'static str = "groq_api_key";

#[verifier::external_type_specification]
#[verifier::external_body]
pub struct ExKeyringEntry(keyring::Entry);

/// What a lookup in the credential store found.
#[derive(Debug)]
pub enum PasswordLookup {
    /// The stored secret.
    Found(String),
    /// Nothing is stored for the entry.
    Missing,
    /// The store failed; its error as displayed.
    Failed(String),
}

/// `keyring::Entry::new`, with the store's error as displayed. Nothing is
/// stated of the outcome: it rests on the platform's credential store.
#[verifier::external_body]
fn entry_new(service: &str, user: &str) -> Result<keyring::Entry, String> {
    match keyring::Entry::new(service, user) {
        Ok(entry) => Ok(entry),
        Err(e) => Err(format!("{}", e)),
    }
}

/// `keyring::Entry::set_password`, with the store's error as displayed.
/// Nothing is stated of the outcome: it rests on the credential store.
#[verifier::external_body]
fn entry_set_password(entry: &keyring::Entry, password: &str) -> Result<(), String> {
    match entry.set_password(password) {
        Ok(()) => Ok(()),
        Err(e) => Err(format!("{}", e)),
    }
}

/// `keyring::Entry::get_password`, telling a missing entry
/// (`keyring::Error::NoEntry`) from other errors, which are displayed.
/// Nothing is stated of the outcome: it rests on the credential store.
#[verifier::external_body]
fn entry_get_password(entry: &keyring::Entry) -> PasswordLookup {
    match entry.get_password() {
        Ok(p) => PasswordLookup::Found(p),
        Err(keyring::Error::NoEntry) => PasswordLookup::Missing,
        Err(e) => PasswordLookup::Failed(format!("{}", e)),
    }
}

/// `keyring::Entry::delete_credential`, with the store's error as
/// displayed. Nothing is stated of the outcome: it rests on the store.
#[verifier::external_body]
fn entry_delete(entry: &keyring::Entry) -> Result<(), String> {
    match entry.delete_credential() {
        Ok(()) => Ok(()),
        Err(e) => Err(format!("{}", e)),
    }
}

/// Whether `e` is an internal error whose message is `prefix` followed by
/// some error text.
pub open spec fn is_internal_with_prefix(e: AppErrorView, prefix: Seq<char>) -> bool {
    e.code@ == "INTERNAL_ERROR"@ && starts_with(e.message@, prefix) && e.details is None
}

/// The error of a store that could not be opened.
pub fn setup_error(reason: &str) -> (e: AppErrorView)
    ensures
        is_error(e, "INTERNAL_ERROR"@, "Keyring setup failed: "@ + reason@),
        is_internal_with_prefix(e, "Keyring setup failed: "@),
{
    proof {
        lemma_starts_with_concat("Keyring setup failed: "@, reason@);
    }
    let mut m = string_of("Keyring setup failed: ");
    push_str(&mut m, reason);
    AppErrorView::internal_error(m.as_str())
}

/// The answer to storing the key.
pub fn save_outcome(stored: Result<(), String>) -> (r: Result<(), AppErrorView>)
    ensures
        match stored {
            Ok(()) => r is Ok,
            Err(msg) => r matches Err(e) && is_error(e, "INTERNAL_ERROR"@, "Failed to save API key: "@ + msg@),
        },
        r matches Err(e) ==> is_internal_with_prefix(e, "Failed to save API key: "@),
{
    match stored {
        Ok(()) => Ok(()),
        Err(msg) => {
            proof {
                lemma_starts_with_concat("Failed to save API key: "@, msg@);
            }
            let mut m = string_of("Failed to save API key: ");
            push_str(&mut m, msg.as_str());
            Err(AppErrorView::internal_error(m.as_str()))
        },
    }
}

/// The answer to looking the key up: the key, nothing when none is stored,
/// or the store's error.
pub fn lookup_outcome(found: PasswordLookup) -> (r: Result<Option<String>, AppErrorView>)
    ensures
        match found {
            PasswordLookup::Found(p) => r == Ok::<Option<String>, AppErrorView>(Some(p)),
            PasswordLookup::Missing => r == Ok::<Option<String>, AppErrorView>(None),
            PasswordLookup::Failed(msg) => r matches Err(e)
                && is_error(e, "INTERNAL_ERROR"@, "Failed to retrieve API key: "@ + msg@),
        },
        r matches Err(e) ==> is_internal_with_prefix(e, "Failed to retrieve API key: "@),
{
    match found {
        PasswordLookup::Found(p) => Ok(Some(p)),
        PasswordLookup::Missing => Ok(None),
        PasswordLookup::Failed(msg) => {
            proof {
                lemma_starts_with_concat("Failed to retrieve API key: "@, msg@);
            }
            let mut m = string_of("Failed to retrieve API key: ");
            push_str(&mut m, msg.as_str());
            Err(AppErrorView::internal_error(m.as_str()))
        },
    }
}

/// The answer to deleting the key.
pub fn delete_outcome(deleted: Result<(), String>) -> (r: Result<(), AppErrorView>)
    ensures
        match deleted {
            Ok(()) => r is Ok,
            Err(msg) => r matches Err(e) && is_error(e, "INTERNAL_ERROR"@, "Failed to delete API key: "@ + msg@),
        },
        r matches Err(e) ==> is_internal_with_prefix(e, "Failed to delete API key: "@),
{
    match deleted {
        Ok(()) => Ok(()),
        Err(msg) => {
            proof {
                lemma_starts_with_concat("Failed to delete API key: "@, msg@);
            }
            let mut m = string_of("Failed to delete API key: ");
            push_str(&mut m, msg.as_str());
            Err(AppErrorView::internal_error(m.as_str()))
        },
    }
}

/// Whether a key is stored, from the answer to looking it up.
pub fn presence_outcome(lookup: Result<Option<String>, AppErrorView>) -> (r: Result<bool, AppErrorView>)
    ensures
        match lookup {
            Ok(Some(_)) => r == Ok::<bool, AppErrorView>(true),
            Ok(None) => r == Ok::<bool, AppErrorView>(false),
            Err(e) => r == Err::<bool, AppErrorView>(e),
        },
{
    match lookup {
        Ok(Some(_)) => Ok(true),
        Ok(None) => Ok(false),
        Err(e) => Err(e),
    }
}

/// What storing a key hands to the credential store: the entry's service
/// and user names and the secret itself. An empty key is refused before
/// the store is asked.
pub fn key_entry_request(key: &str) -> (r: Result<(String, String, String), AppErrorView>)
    ensures
        key@.len() == 0 ==> (r matches Err(e) && is_error(e, "INVALID_INPUT"@, "API key cannot be empty"@)),
        key@.len() > 0 ==> (r matches Ok((service, user, secret)) && service@ == SERVICE_NAME@
            && user@ == GROQ_KEY@ && secret@ == key@),
{
    if key.is_empty() {
        return Err(AppErrorView::new("INVALID_INPUT", "API key cannot be empty"));
    }
    Ok((string_of(SERVICE_NAME), string_of(GROQ_KEY), string_of(key)))
}

/// The entry of the credential store that holds the key: service
/// `VideoTranscriber`, user `groq_api_key`.
pub fn key_entry_names() -> (r: (String, String))
    ensures
        r.0@ == SERVICE_NAME@,
        r.1@ == GROQ_KEY@,
{
    (string_of(SERVICE_NAME), string_of(GROQ_KEY))
}

/// Access to the API key in the operating system's credential store,
/// under service `VideoTranscriber` and user `groq_api_key`.
#[derive(Debug)]
pub struct KeyringAdapter;

impl KeyringAdapter {
    /// Stores the API key. An empty key is refused; a failure of the store
    /// is an internal error naming the step that failed.
    pub fn save_api_key(key: &str) -> (r: Result<(), AppErrorView>)
        ensures
            key@.len() == 0 ==> (r matches Err(e) && is_error(e, "INVALID_INPUT"@, "API key cannot be empty"@)),
            key@.len() > 0 && r is Err ==> (r matches Err(e) && (is_internal_with_prefix(e, "Keyring setup failed: "@)
                || is_internal_with_prefix(e, "Failed to save API key: "@))),
    {
        let (service, user, secret) = match key_entry_request(key) {
            Ok(request) => request,
            Err(e) => return Err(e),
        };
        let entry = match entry_new(service.as_str(), user.as_str()) {
            Ok(entry) => entry,
            Err(msg) => return Err(setup_error(msg.as_str())),
        };
        save_outcome(entry_set_password(&entry, secret.as_str()))
    }

    /// The stored API key, or `None` when none is stored.
    pub fn get_api_key() -> (r: Result<Option<String>, AppErrorView>)
        ensures
            r matches Err(e) ==> is_internal_with_prefix(e, "Keyring setup failed: "@)
                || is_internal_with_prefix(e, "Failed to retrieve API key: "@),
    {
        let (service, user) = key_entry_names();
        let entry = match entry_new(service.as_str(), user.as_str()) {
            Ok(entry) => entry,
            Err(msg) => return Err(setup_error(msg.as_str())),
        };
        lookup_outcome(entry_get_password(&entry))
    }

    /// Whether an API key is stored.
    pub fn has_api_key() -> (r: Result<bool, AppErrorView>)
        ensures
            r matches Err(e) ==> is_internal_with_prefix(e, "Keyring setup failed: "@)
                || is_internal_with_prefix(e, "Failed to retrieve API key: "@),
    {
        presence_outcome(Self::get_api_key())
    }

    /// Deletes the stored API key.
    pub fn delete_api_key() -> (r: Result<(), AppErrorView>)
        ensures
            r matches Err(e) ==> is_internal_with_prefix(e, "Keyring setup failed: "@)
                || is_internal_with_prefix(e, "Failed to delete API key: "@),
    {
        let (service, user) = key_entry_names();
        let entry = match entry_new(service.as_str(), user.as_str()) {
            Ok(entry) => entry,
            Err(msg) => return Err(setup_error(msg.as_str())),
        };
        delete_outcome(entry_delete(&entry))
    }
}

} // verus!
