//! API keys: the generation of a prefixed key and the records that are
//! stored for a new key.
//!
//! Access levels and usage types are carried by the names under which they
//! are stored; times are microseconds since the Unix epoch (UTC).

use vstd::prelude::*;
use vstd::string::*;

verus! {

/// The characters of the base-58 alphabet (Bitcoin's).
pub open spec fn is_base58_char(c: char) -> bool {
    ||| '1' <= c && c <= '9'
    ||| 'A' <= c && c <= 'H'
    ||| 'J' <= c && c <= 'N'
    ||| 'P' <= c && c <= 'Z'
    ||| 'a' <= c && c <= 'k'
    ||| 'm' <= c && c <= 'z'
}

/// A non-empty base-58 text.
pub open spec fn is_base58_token(s: Seq<char>) -> bool {
    s.len() > 0 && forall|i: int| 0 <= i < s.len() ==> #[trigger] is_base58_char(s[i])
}

/// `key` is a prefixed API key under `prefix`: the prefix, '_', a short
/// token, '_', a long token, both tokens base-58.
pub open spec fn is_prefixed_api_key(key: Seq<char>, prefix: Seq<char>) -> bool {
    exists|short: Seq<char>, long: Seq<char>|
        is_base58_token(short) && is_base58_token(long) && key == prefix + "_"@ + short + "_"@
            + long
}

/// The prefix of this service's API keys.
pub open spec fn api_key_prefix() -> Seq<char> {
    "lu"@
}

/// Why a key could not be generated.
#[derive(Clone, Copy, Debug, PartialEq, Eq, Structural)]
pub enum KeyGenError {
    /// The key controller could not be configured.
    Configuration,
    /// The operating system's random source failed.
    Randomness,
}

/// A new API key from `prefixed_api_key`: a `PrefixedApiKeyController` with
/// `prefix` and the crate's "seam" defaults (OS randomness, SHA-256, 8 random
/// bytes for the short token and 24 for the long one), then
/// `try_generate_key_and_hash` and the key's `to_string`. The crate writes
/// the key as prefix, '_', short token, '_', long token, each token the
/// non-empty base-58 (Bitcoin alphabet) encoding of its random bytes; that
/// shape is what is claimed. The builder's `finalize` fails only when the
/// prefix, random source or a token length is unset, and all are set here,
/// so a failure can only come from the random source. Which key comes out,
/// and whether the random source fails, is left open; the hash is not used.
#[verifier::external_body]
fn generate_prefixed_api_key(prefix: &str) -> (r: Result<String, KeyGenError>)
    ensures
        r matches Ok(key) ==> is_prefixed_api_key(key@, prefix@),
        r matches Err(e) ==> e == KeyGenError::Randomness,
{
    match prefixed_api_key::PrefixedApiKeyController::<
        rand::rngs::OsRng,
        sha2::Sha256,
    >::configure().prefix(prefix.to_owned()).seam_defaults().finalize() {
        Err(_) => Err(KeyGenError::Configuration),
        Ok(controller) => match controller.try_generate_key_and_hash() {
            Ok((pak, _hash)) => Ok(pak.to_string()),
            Err(_) => Err(KeyGenError::Randomness),
        },
    }
}

/// The current time from `chrono::Utc::now()`, in microseconds since the
/// Unix epoch. `Utc::now` takes the system time as a duration since the
/// epoch (and panics on an earlier clock), so the value is not negative;
/// nothing more is claimed of it.
#[verifier::external_body]
fn now_micros() -> (t: i64)
    ensures
        t >= 0,
{
    chrono::Utc::now().timestamp_micros()
}

/// A request for a new API key.
#[derive(Debug)]
pub struct ApiRequest {
    pub user_id: Option<String>,
    pub access_level: Option<String>,
    pub expires_at: Option<i64>,
    pub initial_usage: Option<i32>,
    pub usage_limit: Option<i32>,
    pub usage_type: Option<String>,
}

/// The stored record of an API key.
#[derive(Debug)]
pub struct ApiKey {
    pub key: String,
    pub user_id: Option<String>,
    pub dataset_id: Option<String>,
    pub org_id: Option<String>,
    pub access_level: Option<String>,
    pub active: Option<bool>,
    pub deleted: Option<bool>,
    pub created_at: Option<i64>,
    pub expires_at: Option<i64>,
    pub deleted_at: Option<i64>,
    pub deleted_by: Option<String>,
}

/// The usage counted against an API key.
#[derive(Debug)]
pub struct ApiKeyUsage {
    pub id: Option<i32>,
    pub api_key: String,
    pub usage: Option<i32>,
    pub usage_type: Option<String>,
    pub created_at: Option<i64>,
}

/// The usage allowed to an API key.
#[derive(Debug)]
pub struct ApiKeyLimit {
    pub id: Option<i32>,
    pub api_key: String,
    pub usage_limit: Option<i32>,
    pub usage_type: Option<String>,
    pub created_at: Option<i64>,
}

/// The three records stored for a new key.
#[derive(Debug)]
pub struct ApiKeyRecords {
    pub api_key: ApiKey,
    pub usage: ApiKeyUsage,
    pub limit: ApiKeyLimit,
}

pub open spec fn opt_view(s: Option<String>) -> Option<Seq<char>> {
    match s {
        Some(t) => Some(t@),
        None => None,
    }
}

/// The records for a new key `key` asked for by `request`, the key record
/// made at `key_time`, the usage record at `usage_time` and the limit
/// record at `limit_time`: a fresh, active, undeleted key of the request's
/// user and access level, with the request's expiry, initial usage and
/// limit, both counted in the request's usage type.
pub open spec fn records_match(
    r: ApiKeyRecords,
    request: ApiRequest,
    key: Seq<char>,
    key_time: i64,
    usage_time: i64,
    limit_time: i64,
) -> bool {
    &&& r.api_key.key@ == key
    &&& opt_view(r.api_key.user_id) == opt_view(request.user_id)
    &&& r.api_key.dataset_id is None
    &&& r.api_key.org_id is None
    &&& opt_view(r.api_key.access_level) == opt_view(request.access_level)
    &&& r.api_key.active == Some(true)
    &&& r.api_key.deleted == Some(false)
    &&& r.api_key.created_at == Some(key_time)
    &&& r.api_key.expires_at == request.expires_at
    &&& r.api_key.deleted_at is None
    &&& r.api_key.deleted_by is None
    &&& r.usage.id is None
    &&& r.usage.api_key@ == key
    &&& r.usage.usage == request.initial_usage
    &&& opt_view(r.usage.usage_type) == opt_view(request.usage_type)
    &&& r.usage.created_at == Some(usage_time)
    &&& r.limit.id is None
    &&& r.limit.api_key@ == key
    &&& r.limit.usage_limit == request.usage_limit
    &&& opt_view(r.limit.usage_type) == opt_view(request.usage_type)
    &&& r.limit.created_at == Some(limit_time)
}

fn clone_opt_string(s: &Option<String>) -> (r: Option<String>)
    ensures
        opt_view(r) == opt_view(*s),
{
    match s {
        Some(t) => Some(t.clone()),
        None => None,
    }
}

/// The records for key `key` asked for by `request`, made at the given times.
pub fn api_key_records(
    request: ApiRequest,
    key: String,
    key_time: i64,
    usage_time: i64,
    limit_time: i64,
) -> (r: ApiKeyRecords)
    ensures
        records_match(r, request, key@, key_time, usage_time, limit_time),
{
    let api_key = ApiKey {
        key: key.clone(),
        user_id: request.user_id,
        dataset_id: None,
        org_id: None,
        access_level: request.access_level,
        active: Some(true),
        deleted: Some(false),
        created_at: Some(key_time),
        expires_at: request.expires_at,
        deleted_at: None,
        deleted_by: None,
    };
    let usage = ApiKeyUsage {
        id: None,
        api_key: key.clone(),
        usage: request.initial_usage,
        usage_type: clone_opt_string(&request.usage_type),
        created_at: Some(usage_time),
    };
    let limit = ApiKeyLimit {
        id: None,
        api_key: key,
        usage_limit: request.usage_limit,
        usage_type: request.usage_type,
        created_at: Some(limit_time),
    };
    ApiKeyRecords { api_key, usage, limit }
}

/// A new API key for `request` and its records: the key is generated under
/// the prefix "lu"; each record is stamped with the time it was made (a
/// non-negative count of microseconds since the epoch). Fails
/// only when the operating system's random source fails while the key is
/// generated.
pub fn new_api_key_records(request: ApiRequest) -> (r: Result<ApiKeyRecords, KeyGenError>)
    ensures
        r matches Err(e) ==> e == KeyGenError::Randomness,
        r matches Ok(records) ==> is_prefixed_api_key(records.api_key.key@, api_key_prefix())
            && exists|t1: i64, t2: i64, t3: i64|
            0 <= t1 && 0 <= t2 && 0 <= t3 && records_match(
                records,
                request,
                records.api_key.key@,
                t1,
                t2,
                t3,
            ),
{
    let key = match generate_prefixed_api_key("lu") {
        Ok(k) => k,
        Err(e) => {
            return Err(e);
        },
    };
    let key_time = now_micros();
    let usage_time = now_micros();
    let limit_time = now_micros();
    let records = api_key_records(request, key, key_time, usage_time, limit_time);
    assert(records_match(records, request, records.api_key.key@, key_time, usage_time, limit_time));
    Ok(records)
}

}
