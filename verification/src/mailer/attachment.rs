//! Attachments: file name, content type and raw bytes.

use vstd::prelude::*;

verus! {

/// File attachment.
#[derive(Clone, Debug, PartialEq, Eq)]
pub struct Attachment {
    filename: String,
    content_type: String,
    body: Vec<u8>,
}

impl Attachment {
    pub closed spec fn filename_view(&self) -> Seq<char> {
        self.filename@
    }

    pub closed spec fn content_type_view(&self) -> Seq<char> {
        self.content_type@
    }

    pub closed spec fn body_view(&self) -> Seq<u8> {
        self.body@
    }

    /// Attachment `filename` of type `content_type` holding `body`.
    pub fn from_bytes(filename: &str, content_type: &str, body: &[u8]) -> (a: Attachment)
        ensures
            a.filename_view() == filename@,
            a.content_type_view() == content_type@,
            a.body_view() == body@,
    {
        let mut bytes: Vec<u8> = Vec::new();
        let mut i: usize = 0;
        while i < body.len()
            invariant
                i <= body.len(),
                bytes@ == body@.take(i as int),
            decreases body.len() - i,
        {
            bytes.push(body[i]);
            assert(body@.take(i as int + 1) =~= body@.take(i as int).push(body@[i as int]));
            i = i + 1;
        }
        assert(body@.take(body.len() as int) =~= body@);
        Attachment { filename: filename.to_owned(), content_type: content_type.to_owned(), body: bytes }
    }

    /// Suggested file name.
    pub fn filename(&self) -> (r: &str)
        ensures
            r@ == self.filename_view(),
    {
        self.filename.as_str()
    }

    /// MIME content type (for example `application/pdf`).
    pub fn content_type(&self) -> (r: &str)
        ensures
            r@ == self.content_type_view(),
    {
        self.content_type.as_str()
    }

    /// Raw bytes.
    pub fn body(&self) -> (r: &[u8])
        ensures
            r@ == self.body_view(),
    {
        self.body.as_slice()
    }
}

} // verus!
