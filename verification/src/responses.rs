//! The response envelopes: a streaming variant that carries a byte
//! source together with its content type and length, and a JSON
//! variant that carries an optional payload and a status code.

use vstd::prelude::*;
use crate::streams::ContentLength;

verus! {

/// A response for a file stream: a status code, a content-type header
/// value, a content-length header value, and an optional body. The
/// body type is left generic so the transport edge can supply its own
/// blocking byte source; this library never looks inside it.
pub struct FileResponse<T> {
    pub file_data: Option<T>,
    pub status: u16,
    pub content_type: String,
    pub content_length: ContentLength,
}

impl<T> FileResponse<T> {
    /// Creates a new file response from the provided optional body,
    /// status, content type, and content length.
    pub fn new(read: Option<T>, status: u16, content_type: String, content_length: ContentLength) -> (r: Self)
        ensures
            r.file_data == read,
            r.status == status,
            r.content_type == content_type,
            r.content_length == content_length,
    {
        FileResponse { file_data: read, status, content_type, content_length }
    }

    /// Creates a new file response with a success status from the
    /// provided body, content type, and content length.
    pub fn ok(cur: T, content_type: String, content_length: ContentLength) -> (r: Self)
        ensures
            r.file_data == Some(cur),
            r.status == 200,
            r.content_type == content_type,
            r.content_length == content_length,
    {
        FileResponse::new(Some(cur), 200, content_type, content_length)
    }

    /// Creates a new file response for a failed retrieval: no body, an
    /// empty content type, a zero content length, and a failure status.
    pub fn not_found() -> (r: Self)
        ensures
            r.file_data is None,
            r.status == 400,
            r.content_type@ == Seq::<char>::empty(),
            r.content_length == ContentLength(0),
    {
        FileResponse::new(None, 400, String::new(), ContentLength(0))
    }
}

/// A general API response that wraps an optional JSON-serializable
/// payload and a status code. An absent payload stands for a JSON
/// null body.
pub struct ApiResponse<T> {
    pub json: Option<T>,
    pub status: u16,
}

/// A data structure that represents the result of uploading a file:
/// the generated identifier under which the payload was stored.
pub struct UploadResult {
    pub file_id: String,
}

} // verus!
