//! Process-wide configuration identifying the target storage bucket.
//! It is built once at startup from the environment and shared
//! read-only by every request; nothing mutates it afterwards.

use vstd::prelude::*;

verus! {

/// All the metadata required to successfully address the storage
/// bucket: its name, the region it lives in, and the credential pair.
/// The region and credentials are carried as plain strings; the edge
/// that talks to the backend converts them into its client types.
pub struct BucketMetadata {
    pub bucket_name: String,
    pub region: String,
    pub access_key: String,
    pub secret_key: String,
}

} // verus!
