//! The four tool operations: store, fetch, delete and update.
//!
//! Each operation is a stateless request/response function against a
//! [`FileStore`]. Every call answers with an [`Outcome`]; no failure is ever
//! raised past the operation boundary. The contracts say, over the store's
//! map view, exactly which contents each call leaves behind and exactly which
//! message it answers with.

use crate::outcome::Outcome;
use crate::store::FileStore;
use vstd::map::*;
use vstd::prelude::*;
use vstd::string::StrSliceExecFns;
use vstd::utf8::*;

verus! {

/// The confirmation message of a successful store.
pub open spec fn store_ok_text() -> Seq<char> {
    "File stored successfully"@
}

/// The confirmation message of a successful update.
pub open spec fn update_ok_text() -> Seq<char> {
    "File updated successfully"@
}

/// The confirmation message of a successful delete.
pub open spec fn delete_ok_text() -> Seq<char> {
    "File deleted successfully"@
}

/// The failure description answered when a named resource does not exist.
pub open spec fn not_found_text() -> Seq<char> {
    "No such resource"@
}

/// The failure description answered when a resource's bytes are not valid
/// text.
pub open spec fn invalid_utf8_text() -> Seq<char> {
    "Resource contents are not valid UTF-8"@
}

/// The contents a store or update call leaves under `resource_id`: the
/// payload's text, encoded as bytes.
pub open spec fn written_contents(payload: Seq<char>) -> Seq<u8> {
    encode_utf8(payload)
}

/// The map a store call leaves behind: the resource now holds the payload's
/// bytes, whatever it held before.
pub open spec fn after_store(
    m: Map<Seq<char>, Seq<u8>>,
    resource_id: Seq<char>,
    payload: Seq<char>,
) -> Map<Seq<char>, Seq<u8>> {
    m.insert(resource_id, written_contents(payload))
}

/// The map an update call leaves behind: the resource now holds the payload's
/// bytes, whatever it held before.
pub open spec fn after_update(
    m: Map<Seq<char>, Seq<u8>>,
    resource_id: Seq<char>,
    payload: Seq<char>,
) -> Map<Seq<char>, Seq<u8>> {
    m.insert(resource_id, written_contents(payload))
}

/// The map a successful delete leaves behind: the resource is gone.
pub open spec fn after_delete(
    m: Map<Seq<char>, Seq<u8>>,
    resource_id: Seq<char>,
) -> Map<Seq<char>, Seq<u8>> {
    m.remove(resource_id)
}

/// Whether a fetch of `resource_id` from a store holding `m` succeeds: the
/// resource must exist and its bytes must decode as text.
pub open spec fn fetch_succeeds(m: Map<Seq<char>, Seq<u8>>, resource_id: Seq<char>) -> bool {
    m.contains_key(resource_id) && valid_utf8(m[resource_id])
}

/// The message a fetch of `resource_id` from a store holding `m` answers
/// with: the decoded contents on success, a failure description otherwise.
pub open spec fn fetch_text(m: Map<Seq<char>, Seq<u8>>, resource_id: Seq<char>) -> Seq<char> {
    if !m.contains_key(resource_id) {
        not_found_text()
    } else if !valid_utf8(m[resource_id]) {
        invalid_utf8_text()
    } else {
        decode_utf8(m[resource_id])
    }
}

/// The fixed confirmation string of a successful store.
pub fn store_ok_message() -> (r: String)
    ensures
        r@ == store_ok_text(),
{
    ("File stored successfully").to_owned()
}

/// The fixed confirmation string of a successful update.
pub fn update_ok_message() -> (r: String)
    ensures
        r@ == update_ok_text(),
{
    ("File updated successfully").to_owned()
}

/// The fixed confirmation string of a successful delete.
pub fn delete_ok_message() -> (r: String)
    ensures
        r@ == delete_ok_text(),
{
    ("File deleted successfully").to_owned()
}

/// Relies on `String::from_utf8`: it returns the string decoded from the
/// given bytes exactly when they are a valid UTF-8 encoding, and an error
/// value otherwise.
#[verifier::external_body]
fn string_from_utf8(bytes: Vec<u8>) -> (r: Option<String>)
    ensures
        r is Some <==> valid_utf8(bytes@),
        r matches Some(s) ==> s@ == decode_utf8(bytes@),
{
    String::from_utf8(bytes).ok()
}

/// Decode fetched byte contents as text. Answers success carrying the decoded
/// text when the bytes are valid UTF-8, and the decoding-failure description
/// otherwise — never a fault.
pub fn decode_contents(bytes: Vec<u8>) -> (r: Outcome)
    ensures
        r.is_success() == valid_utf8(bytes@),
        r.text() == if valid_utf8(bytes@) {
            decode_utf8(bytes@)
        } else {
            invalid_utf8_text()
        },
{
    match string_from_utf8(bytes) {
        Some(s) => Outcome::Success(s),
        None => Outcome::Failure(("Resource contents are not valid UTF-8").to_owned()),
    }
}

/// Store: create the resource named `resource_id` (overwriting any previous
/// contents) and write the payload's bytes to it in full. In the in-memory
/// store this cannot fail, so the answer is always the fixed confirmation.
pub fn store(fs: &mut FileStore, resource_id: &String, payload: &String) -> (r: Outcome)
    requires
        old(fs).wf(),
    ensures
        final(fs).wf(),
        final(fs)@ == after_store(old(fs)@, resource_id@, payload@),
        r.is_success(),
        r.text() == store_ok_text(),
{
    let bytes = payload.as_str().as_bytes_vec();
    fs.write_resource(resource_id, bytes);
    Outcome::Success(store_ok_message())
}

/// Update: identical contents to [`store`] — create or truncate-and-rewrite —
/// answered with a distinct confirmation. The distinction is one of caller
/// intent only.
pub fn update(fs: &mut FileStore, resource_id: &String, payload: &String) -> (r: Outcome)
    requires
        old(fs).wf(),
    ensures
        final(fs).wf(),
        final(fs)@ == after_update(old(fs)@, resource_id@, payload@),
        r.is_success(),
        r.text() == update_ok_text(),
{
    let bytes = payload.as_str().as_bytes_vec();
    fs.write_resource(resource_id, bytes);
    Outcome::Success(update_ok_message())
}

/// Fetch: read the resource's full contents decoded as text. A missing
/// resource or contents that are not valid text answer with a failure
/// description, never a fault.
pub fn fetch(fs: &FileStore, resource_id: &String) -> (r: Outcome)
    requires
        fs.wf(),
    ensures
        r.is_success() == fetch_succeeds(fs@, resource_id@),
        r.text() == fetch_text(fs@, resource_id@),
{
    match fs.read_resource(resource_id) {
        Some(bytes) => decode_contents(bytes),
        None => Outcome::Failure(("No such resource").to_owned()),
    }
}

/// Delete: remove the resource. A missing resource answers with a failure
/// description, never a fault.
pub fn delete(fs: &mut FileStore, resource_id: &String) -> (r: Outcome)
    requires
        old(fs).wf(),
    ensures
        final(fs).wf(),
        r.is_success() == old(fs)@.contains_key(resource_id@),
        final(fs)@ == if old(fs)@.contains_key(resource_id@) {
            after_delete(old(fs)@, resource_id@)
        } else {
            old(fs)@
        },
        r.text() == if old(fs)@.contains_key(resource_id@) {
            delete_ok_text()
        } else {
            not_found_text()
        },
{
    if fs.remove_resource(resource_id) {
        Outcome::Success(delete_ok_message())
    } else {
        Outcome::Failure(("No such resource").to_owned())
    }
}

/// The store tool under the single-string contract: [`store`] with its
/// outcome flattened, for hosts that carry one string for success and failure
/// alike.
pub fn store_file(fs: &mut FileStore, resource_id: &String, payload: &String) -> (r: String)
    requires
        old(fs).wf(),
    ensures
        final(fs).wf(),
        final(fs)@ == after_store(old(fs)@, resource_id@, payload@),
        r@ == store_ok_text(),
{
    store(fs, resource_id, payload).flatten()
}

/// The fetch tool under the single-string contract: [`fetch`] with its
/// outcome flattened.
pub fn fetch_file(fs: &FileStore, resource_id: &String) -> (r: String)
    requires
        fs.wf(),
    ensures
        r@ == fetch_text(fs@, resource_id@),
{
    fetch(fs, resource_id).flatten()
}

/// The delete tool under the single-string contract: [`delete`] with its
/// outcome flattened.
pub fn delete_file(fs: &mut FileStore, resource_id: &String) -> (r: String)
    requires
        old(fs).wf(),
    ensures
        final(fs).wf(),
        final(fs)@ == if old(fs)@.contains_key(resource_id@) {
            after_delete(old(fs)@, resource_id@)
        } else {
            old(fs)@
        },
        r@ == if old(fs)@.contains_key(resource_id@) {
            delete_ok_text()
        } else {
            not_found_text()
        },
{
    delete(fs, resource_id).flatten()
}

/// The update tool under the single-string contract: [`update`] with its
/// outcome flattened.
pub fn update_file(fs: &mut FileStore, resource_id: &String, payload: &String) -> (r: String)
    requires
        old(fs).wf(),
    ensures
        final(fs).wf(),
        final(fs)@ == after_update(old(fs)@, resource_id@, payload@),
        r@ == update_ok_text(),
{
    update(fs, resource_id, payload).flatten()
}

/// Round trip: after a store of `payload` under `resource_id`, a fetch of
/// `resource_id` succeeds and answers exactly the payload's text.
pub proof fn lemma_store_then_fetch(
    m: Map<Seq<char>, Seq<u8>>,
    resource_id: Seq<char>,
    payload: Seq<char>,
)
    ensures
        fetch_succeeds(after_store(m, resource_id, payload), resource_id),
        fetch_text(after_store(m, resource_id, payload), resource_id) == payload,
{
    broadcast use encode_utf8_valid_utf8, encode_utf8_decode_utf8;

}

/// Overwrite: a second store under the same identifier replaces the first
/// payload entirely; no trace of the first is left.
pub proof fn lemma_store_overwrites(
    m: Map<Seq<char>, Seq<u8>>,
    resource_id: Seq<char>,
    first: Seq<char>,
    second: Seq<char>,
)
    ensures
        after_store(after_store(m, resource_id, first), resource_id, second) == after_store(
            m,
            resource_id,
            second,
        ),
{
    let m1 = after_store(after_store(m, resource_id, first), resource_id, second);
    let m2 = after_store(m, resource_id, second);
    assert_maps_equal!(m1, m2);
}

/// Update equals store: for the same identifier and payload the two leave
/// byte-identical resource contents; only their confirmation strings differ.
pub proof fn lemma_update_equals_store(
    m: Map<Seq<char>, Seq<u8>>,
    resource_id: Seq<char>,
    payload: Seq<char>,
)
    ensures
        after_update(m, resource_id, payload) == after_store(m, resource_id, payload),
        store_ok_text() != update_ok_text(),
{
    reveal_strlit("File stored successfully");
    reveal_strlit("File updated successfully");
    assert(store_ok_text()[5] == 's');
    assert(update_ok_text()[5] == 'u');
}

/// Delete then fetch: after a delete of an existing resource, a fetch of the
/// same identifier answers the missing-resource failure, not a success.
pub proof fn lemma_delete_then_fetch(m: Map<Seq<char>, Seq<u8>>, resource_id: Seq<char>)
    ensures
        !fetch_succeeds(after_delete(m, resource_id), resource_id),
        fetch_text(after_delete(m, resource_id), resource_id) == not_found_text(),
{
}

/// Fetch of undecodable contents: when the stored bytes are not a valid
/// UTF-8 encoding, fetch answers the decoding failure, not a success.
pub proof fn lemma_fetch_invalid_utf8(m: Map<Seq<char>, Seq<u8>>, resource_id: Seq<char>)
    requires
        m.contains_key(resource_id),
        !valid_utf8(m[resource_id]),
    ensures
        !fetch_succeeds(m, resource_id),
        fetch_text(m, resource_id) == invalid_utf8_text(),
{
}

} // verus!
