//! What a request on `/<public key>/<path>` does: the key text is decoded,
//! then the index is written, read, listed or cleared at that path. The
//! transport that carries requests and replies lives outside the library.
use crate::identity::{key_of_text, rejection_text, PublicKey};
use crate::storage::{delete_result, get_result, list_result, put_result, utf8_of, Storage};
use vstd::prelude::*;
use vstd::string::StringSliceAdditionalSpecFns;

verus! {

/// Why a request fails.
#[derive(Debug, Clone)]
pub enum ApiError {
    /// The key text does not name a public key; the text says why.
    InvalidPublicKey(String),
    /// Nothing is stored at the path.
    NotFound,
    /// Something failed inside the server.
    InternalError(String),
}

/// What a request that succeeds answers.
#[derive(Debug, Clone)]
pub enum Reply {
    /// The payload was stored.
    Created,
    /// The entry was removed.
    NoContent,
    /// The payload stored at the path.
    Value(Vec<u8>),
    /// The paths that begin with the requested one.
    Listing(Vec<String>),
}

/// Whether a path asks for a listing: its last byte is `/`.
pub open spec fn names_folder(path: Seq<char>) -> bool {
    utf8_of(path).len() > 0 && utf8_of(path).last() == 47u8
}

/// Whether the last byte of `path` is `/`.
fn ends_with_slash(path: &str) -> (r: bool)
    ensures
        r == names_folder(path@),
{
    let bytes = path.as_bytes();
    bytes.len() > 0 && bytes[bytes.len() - 1] == 47u8
}

/// The key that the text names, or the reason it names none.
fn decode_key(public_key_str: &str) -> (r: Result<PublicKey, ApiError>)
    ensures
        r.is_ok() == key_of_text(public_key_str@).is_some(),
        r matches Ok(k) ==> Some(k@) == key_of_text(public_key_str@),
        r matches Err(e) ==> (e matches ApiError::InvalidPublicKey(m) && m@ == rejection_text(
            public_key_str@,
        )),
{
    match PublicKey::from_z32(public_key_str) {
        Ok(k) => Ok(k),
        Err(e) => Err(ApiError::InvalidPublicKey(e.message())),
    }
}

/// Stores `body` at `path` under the key that `public_key_str` names.
pub fn put_data(storage: &mut Storage, public_key_str: &str, path: String, body: Vec<u8>) -> (r:
    Result<Reply, ApiError>)
    requires
        old(storage).wf(),
    ensures
        final(storage).wf(),
        r.is_ok() == key_of_text(public_key_str@).is_some(),
        r matches Ok(reply) ==> reply is Created,
        r matches Err(e) ==> (e matches ApiError::InvalidPublicKey(m) && m@ == rejection_text(
            public_key_str@,
        )),
        match key_of_text(public_key_str@) {
            Some(k) => final(storage)@ == put_result(old(storage)@, k, path@, body@),
            None => final(storage)@ == old(storage)@,
        },
{
    let public_key = match decode_key(public_key_str) {
        Ok(k) => k,
        Err(e) => {
            return Err(e);
        },
    };
    storage.put(public_key, path, body);
    Ok(Reply::Created)
}

/// Reads `path` under the key that `public_key_str` names: a path that ends
/// in `/` lists the paths that begin with it; any other path gives its
/// payload, or `NotFound`.
pub fn get_data(storage: &Storage, public_key_str: &str, path: &str) -> (r: Result<Reply, ApiError>)
    requires
        storage.wf(),
    ensures
        match key_of_text(public_key_str@) {
            None => r matches Err(e) && (e matches ApiError::InvalidPublicKey(m) && m@
                == rejection_text(public_key_str@)),
            Some(k) => if names_folder(path@) {
                r matches Ok(Reply::Listing(paths)) && paths@.map_values(|p: String| p@).no_duplicates()
                    && paths@.map_values(|p: String| p@).to_set() == list_result(storage@, k, path@)
            } else {
                match get_result(storage@, k, path@) {
                    Some(v) => r matches Ok(Reply::Value(data)) && data@ == v,
                    None => r matches Err(e) && e is NotFound,
                }
            },
        },
{
    let public_key = match decode_key(public_key_str) {
        Ok(k) => k,
        Err(e) => {
            return Err(e);
        },
    };
    if ends_with_slash(path) {
        return Ok(Reply::Listing(storage.list(&public_key, path)));
    }
    match storage.get(&public_key, path) {
        Some(data) => Ok(Reply::Value(data)),
        None => Err(ApiError::NotFound),
    }
}

/// Removes `path` under the key that `public_key_str` names; `NotFound` where
/// nothing was stored there.
pub fn delete_data(storage: &mut Storage, public_key_str: &str, path: &str) -> (r: Result<
    Reply,
    ApiError,
>)
    requires
        old(storage).wf(),
    ensures
        final(storage).wf(),
        match key_of_text(public_key_str@) {
            None => final(storage)@ == old(storage)@ && (r matches Err(e) && (
            e matches ApiError::InvalidPublicKey(m) && m@ == rejection_text(public_key_str@))),
            Some(k) => final(storage)@ == delete_result(old(storage)@, k, path@) && (if old(
                storage,
            )@.contains_key((k, path@)) {
                r matches Ok(reply) && reply is NoContent
            } else {
                r matches Err(e) && e is NotFound
            }),
        },
{
    let public_key = match decode_key(public_key_str) {
        Ok(k) => k,
        Err(e) => {
            return Err(e);
        },
    };
    if storage.delete(&public_key, path) {
        Ok(Reply::NoContent)
    } else {
        Err(ApiError::NotFound)
    }
}

} // verus!
