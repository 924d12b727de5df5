use vstd::prelude::*;
use crate::digest::{compute_hash, content_hash};
use crate::error::MvcError;
use crate::text::str_eq;

verus! {

#[verifier::external_type_specification]
#[verifier::external_body]
pub struct ExJsonError(serde_json::Error);

/// The JSON string literal that serde_json writes for a text.
pub uninterp spec fn json_quoted(s: Seq<char>) -> Seq<char>;

/// The text of the string member `key` of the JSON object that `text`
/// holds; `None` when the text is no JSON document, is no object, lacks the
/// member, or the member is no string.
pub uninterp spec fn json_string_member(text: Seq<char>, key: Seq<char>) -> Option<Seq<char>>;

/// Relies on `serde_json::to_string` applied to a `str`: the text as a
/// quoted and escaped JSON string literal. It writes into a `Vec`, and
/// escaping a string into it cannot fail.
#[verifier::external_body]
fn json_quote(s: &str) -> (r: Result<String, serde_json::Error>)
    ensures
        r is Ok,
        r matches Ok(q) ==> q@ == json_quoted(s@),
{
    serde_json::to_string(s)
}

/// Relies on `serde_json::from_str` into a `serde_json::Value`, then
/// `Value::get` and `Value::as_str`: the string member `key` of the
/// document, which depends on the text and the key alone.
#[verifier::external_body]
fn json_member_text(text: &str, key: &str) -> (r: Option<String>)
    ensures
        r is Some <==> json_string_member(text@, key@) is Some,
        r matches Some(m) ==> json_string_member(text@, key@) == Some(m@),
{
    match serde_json::from_str::<serde_json::Value>(text) {
        Ok(v) => v.get(key).and_then(serde_json::Value::as_str).map(String::from),
        Err(_) => None,
    }
}

/// The metadata of one snapshot: the digest of its archive and the
/// message it was saved with.
pub struct SnapshotRecord {
    pub hash: String,
    pub message: String,
}

/// The text of a metadata record: `{"hash":<hash>,"message":<message>}`
/// with both values as JSON strings.
pub open spec fn record_text(hash: Seq<char>, message: Seq<char>) -> Seq<char> {
    "{\"hash\":"@ + json_quoted(hash) + ",\"message\":"@ + json_quoted(message) + "}"@
}

/// Writes a metadata record as JSON text.
pub fn metadata_json(hash: &str, message: &str) -> (r: String)
    ensures
        r@ == record_text(hash@, message@),
{
    let qh = match json_quote(hash) {
        Ok(q) => q,
        Err(_) => String::new(),
    };
    let qm = match json_quote(message) {
        Ok(q) => q,
        Err(_) => String::new(),
    };
    let mut t = String::from_str("{\"hash\":");
    t.append(qh.as_str());
    t.append(",\"message\":");
    t.append(qm.as_str());
    t.append("}");
    t
}

/// The metadata record of a snapshot whose archive holds `archive`: its hash
/// is the digest of those bytes.
pub fn snapshot_metadata(archive: &[u8], message: &str) -> (r: String)
    ensures
        r@ == record_text(content_hash(archive@), message@),
{
    let hash = compute_hash(archive);
    metadata_json(hash.as_str(), message)
}

/// Whether a metadata text holds both a string `hash` and a string
/// `message` member.
pub open spec fn readable_record(text: Seq<char>) -> bool {
    json_string_member(text, "hash"@) is Some && json_string_member(text, "message"@) is Some
}

/// Reads a metadata record: its `hash` and `message` string members. A text
/// that lacks either is a corrupted repository.
pub fn read_record(text: &str) -> (r: Result<SnapshotRecord, MvcError>)
    ensures
        r is Ok <==> readable_record(text@),
        r matches Ok(rec) ==> json_string_member(text@, "hash"@) == Some(rec.hash@)
            && json_string_member(text@, "message"@) == Some(rec.message@),
        r is Err ==> r == Err::<SnapshotRecord, MvcError>(MvcError::InvalidState),
{
    let hash = json_member_text(text, "hash");
    let message = json_member_text(text, "message");
    match (hash, message) {
        (Some(hash), Some(message)) => Ok(SnapshotRecord { hash, message }),
        _ => Err(MvcError::InvalidState),
    }
}

/// Compares a record's stored hash with the digest of the archive's bytes.
pub fn check_integrity(record: &SnapshotRecord, archive: &[u8]) -> (r: Result<(), MvcError>)
    ensures
        r is Ok <==> record.hash@ == content_hash(archive@),
        r is Err ==> r == Err::<(), MvcError>(MvcError::IntegrityMismatch),
{
    let actual = compute_hash(archive);
    if str_eq(record.hash.as_str(), actual.as_str()) {
        Ok(())
    } else {
        Err(MvcError::IntegrityMismatch)
    }
}

/// Decides whether a snapshot may be restored, from the bytes of its archive
/// and the text of its metadata record (`None` where the file is missing).
/// Nothing is to be touched unless this returns the record.
pub fn restore_check(archive: Option<Vec<u8>>, metadata: Option<String>) -> (r: Result<
    SnapshotRecord,
    MvcError,
>)
    ensures
        (archive is None || metadata is None) ==> r == Err::<SnapshotRecord, MvcError>(
            MvcError::NotFound,
        ),
        archive matches Some(a) ==> (metadata matches Some(m) ==> {
            &&& !readable_record(m@) ==> r == Err::<SnapshotRecord, MvcError>(
                MvcError::InvalidState,
            )
            &&& readable_record(m@) ==> (r is Ok <==> json_string_member(m@, "hash"@) == Some(
                content_hash(a@),
            ))
            &&& readable_record(m@) && r is Err ==> r == Err::<SnapshotRecord, MvcError>(
                MvcError::IntegrityMismatch,
            )
            &&& r matches Ok(rec) ==> json_string_member(m@, "hash"@) == Some(rec.hash@)
                && json_string_member(m@, "message"@) == Some(rec.message@)
        }),
        r matches Ok(rec) ==> archive is Some && rec.hash@ == content_hash(archive->0@),
{
    let bytes = match archive {
        Some(b) => b,
        None => return Err(MvcError::NotFound),
    };
    let text = match metadata {
        Some(t) => t,
        None => return Err(MvcError::NotFound),
    };
    let record = match read_record(text.as_str()) {
        Ok(rec) => rec,
        Err(e) => return Err(e),
    };
    match check_integrity(&record, bytes.as_slice()) {
        Ok(()) => Ok(record),
        Err(e) => Err(e),
    }
}

} // verus!
