//! An encoded image offered on the clipboard under one MIME type.
use vstd::prelude::*;
use crate::formats::str_eq;

verus! {

/// Encoded image bytes and the MIME type they are offered as.
#[derive(Debug, Clone)]
pub struct ClipboardImage {
    pub data: Vec<u8>,
    pub mime: String,
}

impl ClipboardImage {
    /// The MIME types on offer: the image's own type only.
    pub fn available(&self) -> (r: Vec<String>)
        ensures
            r@.len() == 1,
            r@[0]@ == self.mime@,
    {
        let mut v: Vec<String> = Vec::new();
        v.push(self.mime.clone());
        v
    }

    /// The bytes offered under `mime_type`: the image data when it is the
    /// image's own type, nothing otherwise.
    pub fn as_bytes(&self, mime_type: &str) -> (r: Option<Vec<u8>>)
        ensures
            mime_type@ == self.mime@ ==> (r matches Some(d) && d@ == self.data@),
            mime_type@ != self.mime@ ==> r is None,
    {
        if str_eq(mime_type, self.mime.as_str()) {
            let d = self.data.clone();
            assert(d@ =~= self.data@);
            Some(d)
        } else {
            None
        }
    }
}

} // verus!
