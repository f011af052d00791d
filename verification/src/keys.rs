//! The keys under which a document stores the name of its list and the
//! records of its items.
//!
//! One document holds both. A record's key is a prefix followed by the
//! record's identifier, so that keys of different kinds never collide and all
//! records are found by one scan of the prefix.

use crate::error::ListError;
use crate::wire::has_prefix;
use vstd::prelude::*;
use vstd::slice::{slice_subrange, slice_to_vec};
use vstd::utf8::{decode_utf8, encode_utf8, valid_utf8};

verus! {

/// The prefix of the keys of tasks: `task/`.
pub open spec fn task_prefix_spec() -> Seq<u8> {
    seq![0x74u8, 0x61u8, 0x73u8, 0x6bu8, 0x2fu8]
}

/// The prefix of the keys of todos: `todo/`.
pub open spec fn todo_prefix_spec() -> Seq<u8> {
    seq![0x74u8, 0x6fu8, 0x64u8, 0x6fu8, 0x2fu8]
}

/// The key of the entry that holds the name of a list:
/// `metadata/todo_list_name`.
pub open spec fn metadata_key_spec() -> Seq<u8> {
    seq![
        0x6du8, 0x65u8, 0x74u8, 0x61u8, 0x64u8, 0x61u8, 0x74u8, 0x61u8, 0x2fu8, 0x74u8, 0x6fu8,
        0x64u8, 0x6fu8, 0x5fu8, 0x6cu8, 0x69u8, 0x73u8, 0x74u8, 0x5fu8, 0x6eu8, 0x61u8, 0x6du8,
        0x65u8,
    ]
}

/// The key of the record with identifier `id`: the prefix, then the
/// identifier in UTF-8.
pub open spec fn record_key_spec(prefix: Seq<u8>, id: Seq<char>) -> Seq<u8> {
    prefix + encode_utf8(id)
}

/// The identifier that a record's key holds.
pub open spec fn id_of_key(prefix: Seq<u8>, key: Seq<u8>) -> Result<Seq<char>, ListError> {
    if has_prefix(prefix, key) && valid_utf8(key.subrange(prefix.len() as int, key.len() as int)) {
        Ok(decode_utf8(key.subrange(prefix.len() as int, key.len() as int)))
    } else {
        Err(ListError::InvalidKey)
    }
}

/// Calls `String::from_utf8` and keeps the text, or `None` for its error.
///
/// Claimed of it: bytes that are UTF-8 give the text that they encode, and
/// no other bytes give a text.
#[verifier::external_body]
pub(crate) fn text_from_utf8(bytes: Vec<u8>) -> (r: Option<String>)
    ensures
        r is Some <==> valid_utf8(bytes@),
        r matches Some(s) ==> s@ == decode_utf8(bytes@),
{
    match String::from_utf8(bytes) {
        Ok(s) => Some(s),
        Err(_) => None,
    }
}

/// Whether two byte strings are the same.
pub fn same_bytes(a: &[u8], b: &[u8]) -> (r: bool)
    ensures
        r == (a@ == b@),
{
    if a.len() != b.len() {
        return false;
    }
    let mut i: usize = 0;
    while i < a.len()
        invariant
            a@.len() == b@.len(),
            i <= a@.len(),
            forall|j: int| 0 <= j < i ==> a@[j] == b@[j],
        decreases a@.len() - i,
    {
        if a[i] != b[i] {
            return false;
        }
        i += 1;
    }
    assert(a@ =~= b@);
    true
}

/// Whether `key` begins with `prefix`.
pub fn starts_with(key: &[u8], prefix: &[u8]) -> (r: bool)
    ensures
        r == has_prefix(prefix@, key@),
{
    if prefix.len() > key.len() {
        return false;
    }
    same_bytes(slice_subrange(key, 0, prefix.len()), prefix)
}

/// The prefix of the keys of tasks.
pub fn task_prefix() -> (p: Vec<u8>)
    ensures
        p@ == task_prefix_spec(),
{
    let p: Vec<u8> = vec![0x74u8, 0x61u8, 0x73u8, 0x6bu8, 0x2fu8];
    p
}

/// The prefix of the keys of todos.
pub fn todo_prefix() -> (p: Vec<u8>)
    ensures
        p@ == todo_prefix_spec(),
{
    let p: Vec<u8> = vec![0x74u8, 0x6fu8, 0x64u8, 0x6fu8, 0x2fu8];
    p
}

/// The key of the entry that holds the name of a list.
pub fn metadata_key() -> (k: Vec<u8>)
    ensures
        k@ == metadata_key_spec(),
{
    let k: Vec<u8> = vec![
        0x6du8, 0x65u8, 0x74u8, 0x61u8, 0x64u8, 0x61u8, 0x74u8, 0x61u8, 0x2fu8, 0x74u8, 0x6fu8,
        0x64u8, 0x6fu8, 0x5fu8, 0x6cu8, 0x69u8, 0x73u8, 0x74u8, 0x5fu8, 0x6eu8, 0x61u8, 0x6du8,
        0x65u8,
    ];
    k
}

/// The key of the record with identifier `id`.
pub fn record_key(prefix: &[u8], id: &str) -> (k: Vec<u8>)
    ensures
        k@ == record_key_spec(prefix@, id@),
{
    let mut k: Vec<u8> = slice_to_vec(prefix);
    k.extend_from_slice(id.as_bytes());
    k
}

/// The identifier that a record's key holds. Fails with
/// `ListError::InvalidKey` where the key does not begin with the prefix or
/// what follows the prefix is not UTF-8.
pub fn id_from_record_key(prefix: &[u8], key: &[u8]) -> (r: Result<String, ListError>)
    ensures
        match r {
            Ok(id) => id_of_key(prefix@, key@) == Ok::<Seq<char>, ListError>(id@),
            Err(e) => id_of_key(prefix@, key@) == Err::<Seq<char>, ListError>(e),
        },
{
    if !starts_with(key, prefix) {
        return Err(ListError::InvalidKey);
    }
    let tail: Vec<u8> = slice_to_vec(slice_subrange(key, prefix.len(), key.len()));
    match text_from_utf8(tail) {
        Some(id) => Ok(id),
        None => Err(ListError::InvalidKey),
    }
}

/// The key of a record holds the record's identifier: taking the identifier
/// out of `record_key_spec(prefix, id)` gives `id` back.
pub proof fn law_key_holds_its_id(prefix: Seq<u8>, id: Seq<char>)
    ensures
        has_prefix(prefix, record_key_spec(prefix, id)),
        id_of_key(prefix, record_key_spec(prefix, id)) is Ok,
        id_of_key(prefix, record_key_spec(prefix, id))->Ok_0 == id,
{
    let key = record_key_spec(prefix, id);
    assert(key.subrange(0, prefix.len() as int) =~= prefix);
    assert(key.subrange(prefix.len() as int, key.len() as int) =~= encode_utf8(id));
    vstd::utf8::encode_utf8_valid_utf8(id);
    vstd::utf8::encode_utf8_decode_utf8(id);
}

/// Records with different identifiers have different keys.
pub proof fn law_keys_tell_ids_apart(prefix: Seq<u8>, a: Seq<char>, b: Seq<char>)
    requires
        record_key_spec(prefix, a) == record_key_spec(prefix, b),
    ensures
        a == b,
{
    law_key_holds_its_id(prefix, a);
    law_key_holds_its_id(prefix, b);
}

/// Keys of records are told apart from the key of the list's name, under
/// either prefix.
pub proof fn law_name_key_is_no_record_key()
    ensures
        !has_prefix(task_prefix_spec(), metadata_key_spec()),
        !has_prefix(todo_prefix_spec(), metadata_key_spec()),
{
}

} // verus!
