//! Provider records: which new providers are accepted, how their API keys
//! are sealed before storage and opened on read, how an update is merged
//! into a stored record, and how a connection probe is reported.

use crate::codec::{aead_message_limit, base64_input_limit, NONCE_LEN, TAG_LEN};
use crate::crypto::{decrypt, decrypt_result, encrypt, is_sealing_of, CryptoError};
use crate::models::{ConnectionStatus, NewProvider, ProviderType};
use crate::provider::{nonempty_key, normalize_url, normalized_url, usable_key};
use crate::text::{is_blank, push_str, str_is_blank};
use vstd::prelude::*;
use vstd::utf8::encode_utf8;

verus! {

/// Why a new provider was refused.
#[derive(Debug, Clone, Copy, PartialEq, Eq, Structural)]
pub enum ProviderError {
    /// The name is blank.
    NameRequired,
    /// The API URL is blank.
    UrlRequired,
}

impl ProviderError {
    /// The message reported for this error.
    pub fn describe(&self) -> (s: &'static str)
        ensures
            s@ == (match *self {
                ProviderError::NameRequired => "Provider name is required"@,
                ProviderError::UrlRequired => "API URL is required"@,
            }),
    {
        match self {
            ProviderError::NameRequired => "Provider name is required",
            ProviderError::UrlRequired => "API URL is required",
        }
    }
}

/// Checks a new provider: its name and its API URL must not be blank.
pub fn check_new_provider(new: &NewProvider) -> (r: Result<(), ProviderError>)
    ensures
        is_blank(new.name@) ==> r == Err::<(), ProviderError>(ProviderError::NameRequired),
        !is_blank(new.name@) && is_blank(new.api_url@) ==> r == Err::<(), ProviderError>(
            ProviderError::UrlRequired,
        ),
        r is Ok <==> !is_blank(new.name@) && !is_blank(new.api_url@),
{
    if str_is_blank(new.name.as_str()) {
        Err(ProviderError::NameRequired)
    } else if str_is_blank(new.api_url.as_str()) {
        Err(ProviderError::UrlRequired)
    } else {
        Ok(())
    }
}

/// A plaintext key short enough to be sealed at all.
pub open spec fn sealable(k: Seq<char>) -> bool {
    encode_utf8(k).len() + NONCE_LEN + TAG_LEN < base64_input_limit()
}

/// Whether the plaintext key `key` is short enough to be sealed at all: its
/// UTF-8 bytes, with the nonce and the tag, must fit the base64 encoder's
/// input.
pub fn sealable_text(key: &str) -> (b: bool)
    ensures
        b == sealable(key@),
{
    let n = key.as_bytes().len();
    n < 3 * (usize::MAX / 4) - (NONCE_LEN + TAG_LEN)
}

/// `stored` is a sealing of the plaintext `k` under `secret`, with some nonce.
pub open spec fn seals(stored: Seq<char>, secret: Seq<u8>, k: Seq<char>) -> bool {
    exists|n: Seq<u8>| #[trigger] is_sealing_of(stored, secret, n, k)
}

/// What storing the key `key` under `secret` yields: no key for a missing or
/// empty one; otherwise a sealing of it, or a refusal by the cipher for a key
/// beyond its message limit.
pub open spec fn sealed_key_ok(key: Option<String>, secret: Seq<u8>, r: Result<
    Option<String>,
    CryptoError,
>) -> bool {
    match usable_key(key) {
        None => r is Ok && r->Ok_0 is None,
        Some(k) => {
            &&& (r is Ok <==> encode_utf8(k@).len() < aead_message_limit())
            &&& r matches Ok(s) ==> (s matches Some(t) && seals(t@, secret, k@))
            &&& r matches Err(e) ==> e == CryptoError::EncryptionFailed
        },
    }
}

/// The stored form of an API key: `None` for a missing or empty key, the
/// key sealed under `secret` otherwise.
pub fn seal_key(key: Option<String>, secret: &[u8; 32]) -> (r: Result<Option<String>, CryptoError>)
    requires
        key matches Some(k) ==> sealable(k@),
    ensures
        sealed_key_ok(key, secret@, r),
{
    let usable = nonempty_key(key);
    match usable {
        None => Ok(None),
        Some(k) => {
            let sealed = encrypt(k.as_str(), secret);
            match sealed {
                Ok(s) => {
                    let out: Result<Option<String>, CryptoError> = Ok(Some(s));
                    proof {
                        let n = choose|n: Seq<u8>| #[trigger] is_sealing_of(s@, secret@, n, k@);
                        assert(is_sealing_of(s@, secret@, n, k@));
                        assert(seals(s@, secret@, k@));
                    }
                    out
                },
                Err(e) => Err(e),
            }
        },
    }
}

/// The plaintext of a stored API key. A key that cannot be opened (the key
/// file was replaced, the value is damaged) reads as no key, so one bad
/// record does not make every provider unreadable.
pub fn open_key(stored: Option<String>, secret: &[u8; 32]) -> (r: Option<String>)
    ensures
        match stored {
            None => r is None,
            Some(s) => match decrypt_result(s@, secret@) {
                Ok(p) => r matches Some(t) && t@ == p,
                Err(_) => r is None,
            },
        },
        stored matches Some(s) ==> forall|n: Seq<u8>, p: Seq<char>|
            #[trigger] is_sealing_of(s@, secret@, n, p) ==> (r matches Some(t) && t@ == p),
{
    match stored {
        None => None,
        Some(s) => match decrypt(s.as_str(), secret) {
            Ok(p) => Some(p),
            Err(_) => None,
        },
    }
}

/// A provider's stored fields; `api_key` holds the sealed form.
#[derive(Debug, Clone)]
pub struct ProviderFields {
    pub name: String,
    pub provider_type: ProviderType,
    pub api_url: String,
    pub api_key: Option<String>,
    pub is_default: bool,
}

/// The stored fields of a new provider: the URL normalised and the key
/// sealed.
pub fn new_provider_fields(new: &NewProvider, secret: &[u8; 32]) -> (r: Result<
    ProviderFields,
    CryptoError,
>)
    requires
        new.api_key matches Some(k) ==> sealable(k@),
    ensures
        sealed_key_ok(
            new.api_key,
            secret@,
            match r {
                Ok(f) => Ok(f.api_key),
                Err(e) => Err(e),
            },
        ),
        r matches Ok(f) ==> {
            &&& f.name@ == new.name@
            &&& f.provider_type == new.provider_type
            &&& f.api_url@ == normalized_url(new.api_url@)
            &&& f.is_default == new.is_default
        },
{
    let api_key = match seal_key(new.api_key.clone(), secret) {
        Ok(k) => k,
        Err(e) => {
            return Err(e);
        },
    };
    Ok(
        ProviderFields {
            name: new.name.clone(),
            provider_type: new.provider_type,
            api_url: normalize_url(new.api_url.as_str()),
            api_key,
            is_default: new.is_default,
        },
    )
}

/// Input for updating a provider: `None` leaves a field unchanged. For the
/// key, `Some(None)` clears it and `Some(Some(k))` sets it.
#[derive(Debug, Clone)]
pub struct UpdateProvider {
    pub id: u128,
    pub name: Option<String>,
    pub provider_type: Option<ProviderType>,
    pub api_url: Option<String>,
    pub api_key: Option<Option<String>>,
    pub is_default: Option<bool>,
}

/// The stored fields after `update` is applied to `existing`.
pub fn merge_provider(existing: ProviderFields, update: &UpdateProvider, secret: &[u8; 32]) -> (r:
    Result<ProviderFields, CryptoError>)
    requires
        update.api_key matches Some(Some(k)) ==> sealable(k@),
    ensures
        match update.api_key {
            Some(k) => sealed_key_ok(
                k,
                secret@,
                match r {
                    Ok(f) => Ok(f.api_key),
                    Err(e) => Err(e),
                },
            ),
            None => r matches Ok(f) && f.api_key == existing.api_key,
        },
        r matches Ok(f) ==> {
            &&& f.name@ == (match update.name {
                Some(n) => n@,
                None => existing.name@,
            })
            &&& f.provider_type == (match update.provider_type {
                Some(t) => t,
                None => existing.provider_type,
            })
            &&& f.api_url@ == (match update.api_url {
                Some(u) => normalized_url(u@),
                None => existing.api_url@,
            })
            &&& f.is_default == (match update.is_default {
                Some(d) => d,
                None => existing.is_default,
            })
        },
{
    let api_key = match &update.api_key {
        Some(k) => match seal_key(k.clone(), secret) {
            Ok(s) => s,
            Err(e) => {
                return Err(e);
            },
        },
        None => existing.api_key,
    };
    let name = match &update.name {
        Some(n) => n.clone(),
        None => existing.name,
    };
    let provider_type = match update.provider_type {
        Some(t) => t,
        None => existing.provider_type,
    };
    let api_url = match &update.api_url {
        Some(u) => normalize_url(u.as_str()),
        None => existing.api_url,
    };
    let is_default = match update.is_default {
        Some(d) => d,
        None => existing.is_default,
    };
    Ok(ProviderFields { name, provider_type, api_url, api_key, is_default })
}

/// How a connection probe ended.
#[derive(Debug, Clone)]
pub enum ProbeOutcome {
    /// The provider record was not found.
    NotFound,
    /// The server answered; `success` tells whether with a 2xx status, and
    /// `status` is the status as text (e.g. "401 Unauthorized").
    Answered { success: bool, status: String },
    /// The request timed out.
    TimedOut,
    /// No connection could be made.
    Unreachable,
    /// The request failed otherwise, for the reason given.
    Failed(String),
}

/// How a connection probe is reported to the user.
pub open spec fn probe_report(outcome: ProbeOutcome) -> Option<Seq<char>> {
    match outcome {
        ProbeOutcome::NotFound => Some("Provider not found"@),
        ProbeOutcome::Answered { success, status } => if success {
            None
        } else {
            Some("Server returned "@ + status@)
        },
        ProbeOutcome::TimedOut => Some("Connection timed out"@),
        ProbeOutcome::Unreachable => Some("Could not connect to endpoint"@),
        ProbeOutcome::Failed(reason) => Some("Request failed: "@ + reason@),
    }
}

/// The connection status for a probe's outcome: connected on a 2xx answer,
/// failed with a reason otherwise.
pub fn connection_status(outcome: ProbeOutcome) -> (s: ConnectionStatus)
    ensures
        match probe_report(outcome) {
            None => s is Connected,
            Some(m) => s matches ConnectionStatus::Failed(t) && t@ == m,
        },
{
    let mut m = String::new();
    match outcome {
        ProbeOutcome::NotFound => push_str(&mut m, "Provider not found"),
        ProbeOutcome::Answered { success, status } => {
            if success {
                return ConnectionStatus::Connected;
            }
            push_str(&mut m, "Server returned ");
            push_str(&mut m, status.as_str());
        },
        ProbeOutcome::TimedOut => push_str(&mut m, "Connection timed out"),
        ProbeOutcome::Unreachable => push_str(&mut m, "Could not connect to endpoint"),
        ProbeOutcome::Failed(reason) => {
            push_str(&mut m, "Request failed: ");
            push_str(&mut m, reason.as_str());
        },
    }
    ConnectionStatus::Failed(m)
}

} // verus!
