//! Records of files placed in object storage.
use vstd::prelude::*;

verus! {

/// Where an uploaded file was stored.
pub struct UploadedFile {
    pub filename: String,
    pub s3_key: String,
    pub s3_url: String,
}

impl UploadedFile {
    /// Records an upload of `filename` under `s3_key`, reachable at `s3_url`.
    pub fn new(filename: String, s3_key: String, s3_url: String) -> (r: UploadedFile)
        ensures
            r.filename@ == filename@,
            r.s3_key@ == s3_key@,
            r.s3_url@ == s3_url@,
    {
        UploadedFile { filename, s3_key, s3_url }
    }
}

} // verus!
