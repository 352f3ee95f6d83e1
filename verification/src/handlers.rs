//! The upload and download transcoders: everything the file handlers
//! decide and compute, stated over plain values. The edge that performs
//! the actual HTTP and storage-backend I/O hands its observations to
//! these functions and carries their results back out.

use vstd::prelude::*;
use crate::responses::{ApiResponse, FileResponse, UploadResult};
use crate::streams::{valid_content_length, content_length_value, ContentLength};

verus! {

/// The number of bytes of an upload batched into one stream element
/// handed to the storage backend.
pub const UPLOAD_CHUNK_SIZE: usize = 4096;

/// Everything the storage backend's get operation reports back.
pub enum GetOutcome<T> {
    /// The backend returned an object: its body (which a degenerate
    /// response may omit), and its declared content type and length.
    Retrieved { body: Option<T>, content_type: Option<String>, content_length: Option<i64> },
    /// The backend reported a failure of any kind: a missing key, a
    /// transport error, or a rejected request. The gateway does not
    /// distinguish among them.
    Failed,
}

/// Whether a get outcome carries a body that can be streamed back.
pub open spec fn download_ok<T>(o: GetOutcome<T>) -> bool {
    match o {
        GetOutcome::Retrieved { body, .. } => body is Some,
        GetOutcome::Failed => false,
    }
}

/// The status a download response reports: success exactly when the
/// backend handed back a body.
pub open spec fn download_status<T>(o: GetOutcome<T>) -> u16 {
    if download_ok(o) {
        200
    } else {
        400
    }
}

/// The body a download response streams back: the backend's body,
/// untouched and in the backend's order, or nothing on failure.
pub open spec fn download_body<T>(o: GetOutcome<T>) -> Option<T> {
    match o {
        GetOutcome::Retrieved { body, .. } => body,
        GetOutcome::Failed => None,
    }
}

/// Whether a declared content type is a well-formed media type. The
/// media-type grammar is the HTTP framework's; this name stands for
/// its verdict, which depends on the characters alone.
pub uninterp spec fn media_type_parsable(s: Seq<char>) -> bool;

/// Relies on rocket::http::ContentType's string parser (its FromStr
/// impl): whether a declared content type parses as a media type is a
/// function of the string alone, named `media_type_parsable`.
#[verifier::external_body]
fn is_parsable_media_type(s: &str) -> (r: bool)
    ensures
        r == media_type_parsable(s@),
{
    s.parse::<rocket::http::ContentType>().is_ok()
}

/// The content type a download response declares: the backend's
/// declared type unchanged when it is a well-formed media type, the
/// generic binary type when the backend declares none or declares one
/// that does not parse, and the empty string on failure.
pub open spec fn download_content_type<T>(o: GetOutcome<T>) -> Seq<char> {
    match o {
        GetOutcome::Retrieved { body: Some(_), content_type: Some(ct), .. } => if
        media_type_parsable(ct@) {
            ct@
        } else {
            ("application/octet-stream")@
        },
        GetOutcome::Retrieved { body: Some(_), content_type: None, .. } => (
        "application/octet-stream")@,
        _ => Seq::empty(),
    }
}

/// The content length a download response declares: the backend's
/// declared length unchanged, or zero when the backend declares none
/// or the retrieval failed.
pub open spec fn download_content_length<T>(o: GetOutcome<T>) -> int {
    match o {
        GetOutcome::Retrieved { body: Some(_), content_length: Some(n), .. } => n as int,
        _ => 0,
    }
}

/// Adapts what the backend's get operation reported into the response
/// envelope that is streamed back: on success the body passes through
/// untouched with the declared content type and length; on failure the
/// response has no body, an empty content type, and a failure status.
pub fn download_response<T>(outcome: GetOutcome<T>) -> (r: FileResponse<T>)
    ensures
        r.status == download_status(outcome),
        r.file_data == download_body(outcome),
        r.content_type@ == download_content_type(outcome),
        r.content_length.0 as int == download_content_length(outcome),
{
    match outcome {
        GetOutcome::Retrieved { body: Some(b), content_type, content_length } => {
            let ct: String = match content_type {
                Some(s) => {
                    if is_parsable_media_type(s.as_str()) {
                        s
                    } else {
                        "application/octet-stream".to_owned()
                    }
                },
                None => "application/octet-stream".to_owned(),
            };
            let cl: i64 = match content_length {
                Some(n) => n,
                None => 0,
            };
            FileResponse::ok(b, ct, ContentLength(cl))
        },
        _ => FileResponse::not_found(),
    }
}

/// Issuing the same download request twice against unchanged backend
/// state is idempotent: equal get outcomes yield responses that agree
/// in status, body, content type, and content length.
pub proof fn lemma_download_idempotent<T>(o1: GetOutcome<T>, o2: GetOutcome<T>)
    requires
        o1 == o2,
    ensures
        download_status(o1) == download_status(o2),
        download_body(o1) == download_body(o2),
        download_content_type(o1) == download_content_type(o2),
        download_content_length(o1) == download_content_length(o2),
{
}

/// Gatekeeper for the upload path: takes the request's declared
/// Content-Length header values and hands back either the validated
/// length to attach verbatim to the put call, or the failure response
/// that must be returned without issuing any put call.
pub fn validate_upload_length(header_values: &Vec<String>) -> (r: Result<
    ContentLength,
    ApiResponse<UploadResult>,
>)
    ensures
        (r is Ok) <==> (header_values@.len() == 1 && valid_content_length(header_values@[0]@)),
        r matches Ok(cl) ==> cl.0 as int == content_length_value(header_values@[0]@),
        r matches Err(resp) ==> resp.status == 400 && resp.json is None,
{
    match ContentLength::from_header_values(header_values) {
        Ok(cl) => Ok(cl),
        Err(_) => Err(ApiResponse { json: None, status: 400 }),
    }
}

/// Builds the JSON envelope that reports an upload's outcome: the
/// generated identifier with a success status when the backend accepted
/// the object, an empty payload with a failure status otherwise.
pub fn upload_response(file_id: String, put_succeeded: bool) -> (r: ApiResponse<UploadResult>)
    ensures
        put_succeeded ==> r.status == 200 && (r.json matches Some(u) && u.file_id == file_id),
        !put_succeeded ==> r.status == 400 && r.json is None,
{
    if put_succeeded {
        ApiResponse { json: Some(UploadResult { file_id }), status: 200 }
    } else {
        ApiResponse { json: None, status: 400 }
    }
}

/// True when `c` is a lowercase hexadecimal digit.
pub open spec fn is_lower_hex_digit(c: char) -> bool {
    (48 <= c as int && c as int <= 57) || (97 <= c as int && c as int <= 102)
}

/// The shape of a generated object key: exactly 32 lowercase
/// hexadecimal digits.
pub open spec fn is_object_key(s: Seq<char>) -> bool {
    s.len() == 32 && (forall|i: int| 0 <= i < s.len() ==> is_lower_hex_digit(#[trigger] s[i]))
}

/// Relies on uuid::Uuid::new_v4 and the simple formatter: whatever
/// random identifier is drawn, the formatter writes it as exactly 32
/// lowercase hexadecimal digits.
#[verifier::external_body]
fn generate_simple_uuid() -> (r: String)
    ensures
        is_object_key(r@),
{
    uuid::Uuid::new_v4().simple().to_string()
}

/// Generates the fresh object key under which an upload is stored and
/// by which it is later retrieved.
pub fn fresh_file_id() -> (r: String)
    ensures
        is_object_key(r@),
{
    generate_simple_uuid()
}

/// Checks whether a string has the shape of a generated object key.
pub fn is_valid_file_id(s: &str) -> (b: bool)
    ensures
        b == is_object_key(s@),
{
    let n = s.unicode_len();
    if n != 32 {
        return false;
    }
    let mut i: usize = 0;
    while i < n
        invariant
            i <= n,
            n == s@.len(),
            n == 32,
            forall|j: int| 0 <= j < i ==> is_lower_hex_digit(#[trigger] s@[j]),
        decreases n - i,
    {
        let c = s.get_char(i);
        let u = c as u32;
        if !((48 <= u && u <= 57) || (97 <= u && u <= 102)) {
            return false;
        }
        i += 1;
    }
    true
}

/// One observation of the upload body source: a byte was read, the
/// source ended, or a read failed.
pub enum ReadEvent<E> {
    Byte(u8),
    End,
    Failed(E),
}

/// What the upload feed loop must do after one read event: keep
/// gathering the batch handed back, send a completed batch and start a
/// fresh one, send the final partial batch and stop, stop silently, or
/// send the read failure as a failed stream element and stop.
pub enum FeedOutcome<E> {
    Gathering(Vec<u8>),
    Send(Vec<u8>),
    SendLast(Vec<u8>),
    Done,
    Fail(E),
}

/// Decides one step of the upload feed loop: appends a read byte to
/// the batch being gathered, emits the batch exactly when it reaches
/// the chunk size, emits the final partial batch (never an empty one)
/// when the source ends, and aborts the whole batch on a read failure,
/// so a partial chunk is never emitted. The edge only reads the source
/// and sends what this function says.
pub fn feed_step<E>(batch: Vec<u8>, event: ReadEvent<E>, size: usize) -> (r: FeedOutcome<E>)
    requires
        1 <= size,
        batch@.len() < size,
    ensures
        (match event {
            ReadEvent::Byte(b) => if batch@.len() + 1 < size {
                r matches FeedOutcome::Gathering(g) && g@ == batch@.push(b)
            } else {
                r matches FeedOutcome::Send(c) && c@ == batch@.push(b)
            },
            ReadEvent::End => if batch@.len() > 0 {
                r matches FeedOutcome::SendLast(c) && c@ == batch@
            } else {
                r is Done
            },
            ReadEvent::Failed(e) => r == FeedOutcome::Fail(e),
        }),
{
    match event {
        ReadEvent::Byte(b) => {
            let mut batch = batch;
            batch.push(b);
            if batch.len() == size {
                FeedOutcome::Send(batch)
            } else {
                FeedOutcome::Gathering(batch)
            }
        },
        ReadEvent::End => {
            if batch.len() > 0 {
                FeedOutcome::SendLast(batch)
            } else {
                FeedOutcome::Done
            }
        },
        ReadEvent::Failed(e) => FeedOutcome::Fail(e),
    }
}

} // verus!
