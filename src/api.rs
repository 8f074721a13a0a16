use vstd::prelude::*;

use crate::parse::{is_height, is_key_hex, key_of_hex, parse_height, public_key_from_hex, digits_value, height_digits};
use crate::schema::Storage;
use crate::store::{keys_unique, map_of, views_of, Timestamp};
use crate::transactions::TimestampingTransactions;
use vstd::string::StringSliceAdditionalSpecFns;

verus! {

/// An error answered to a client request.
#[derive(Debug, Clone)]
pub enum ApiError {
    /// The request was malformed; nothing was read or submitted.
    BadRequest(String),
    /// The node could not take the request.
    InternalError(String),
}

/// A 32-byte content hash.
#[derive(Clone, Copy)]
pub struct Digest {
    pub bytes: [u8; 32],
}

/// The acknowledgement of a submitted transaction: its hash. It says the
/// transaction was handed on for ordering, not that it was applied.
#[derive(Clone, Copy)]
pub struct TransactionResponse {
    pub tx_hash: Digest,
}

/// Looks up the record for a key given as 64 hexadecimal digits, in a
/// snapshot of the committed state taken for this call. A malformed key is
/// a bad request; an unknown key is `Ok(None)`.
pub fn get_timestamp(storage: &Storage, pub_key_hex: &str) -> (r: Result<
    Option<Timestamp>,
    ApiError,
>)
    requires
        storage.wf(),
    ensures
        r is Err <==> !is_key_hex(pub_key_hex.spec_bytes()),
        r is Err ==> r->Err_0 is BadRequest,
        r matches Ok(Some(t)) ==> storage@.contains_key(key_of_hex(pub_key_hex.spec_bytes()))
            && t@ == storage@[key_of_hex(pub_key_hex.spec_bytes())],
        r matches Ok(None) ==> !storage@.contains_key(key_of_hex(pub_key_hex.spec_bytes())),
{
    let pub_key = match public_key_from_hex(pub_key_hex) {
        Some(k) => k,
        None => {
            return Err(ApiError::BadRequest("Invalid request param: `pub_key`".to_owned()));
        },
    };
    let snapshot = storage.snapshot();
    Ok(snapshot.timestamp(&pub_key))
}

/// Every committed record, read from a snapshot taken for this call, in
/// storage order. Empty storage gives an empty list.
pub fn get_timestamps(storage: &Storage) -> (r: Vec<Timestamp>)
    requires
        storage.wf(),
    ensures
        keys_unique(views_of(r@)),
        map_of(views_of(r@)) == storage@,
        r@.len() == storage@.dom().len(),
{
    let snapshot = storage.snapshot();
    snapshot.timestamps().values()
}

/// Decides on a submitted body, as the body parser gave it: a transaction
/// goes on to be hashed and handed to the node; an empty or unparsable body
/// is a bad request.
pub fn post_transaction(body: Result<Option<TimestampingTransactions>, String>) -> (r: Result<
    TimestampingTransactions,
    ApiError,
>)
    ensures
        body matches Ok(Some(tx)) ==> r matches Ok(t) && t@ == tx@,
        body matches Ok(None) ==> r matches Err(ApiError::BadRequest(m)) && m@
            == "Empty request body"@,
        body matches Err(e) ==> r matches Err(ApiError::BadRequest(m)) && m@ == e@,
{
    match body {
        Ok(Some(tx)) => Ok(tx),
        Ok(None) => Err(ApiError::BadRequest("Empty request body".to_owned())),
        Err(e) => Err(ApiError::BadRequest(e)),
    }
}

/// Reads the height of a block-info request. A height that is not a decimal
/// `u64` is a bad request.
pub fn block_height(height: &str) -> (r: Result<u64, ApiError>)
    ensures
        r is Ok <==> is_height(height.spec_bytes()),
        r matches Ok(h) ==> h == digits_value(height_digits(height.spec_bytes())),
        r is Err ==> r->Err_0 is BadRequest,
{
    match parse_height(height) {
        Some(h) => Ok(h),
        None => Err(ApiError::BadRequest("Invalid request param: `block_height`".to_owned())),
    }
}

} // verus!
