//! Opaque content handles: a media type together with the content bytes.
//!
//! A `Resource` stands uniformly for template-produced content, inline
//! embeddings and attachments.

use vstd::prelude::*;

verus! {

/// The mathematical value of a [`Resource`]: its media type and content bytes.
pub struct ResourceView {
    pub media_type: Seq<char>,
    pub data: Seq<u8>,
}

/// A content handle: a media type (e.g. `text/plain`) and the content bytes.
#[derive(Debug)]
pub struct Resource {
    media_type: String,
    data: Vec<u8>,
}

impl View for Resource {
    type V = ResourceView;

    closed spec fn view(&self) -> ResourceView {
        ResourceView { media_type: self.media_type@, data: self.data@ }
    }
}

impl Resource {
    /// Wraps content bytes under the given media type.
    pub fn new(media_type: String, data: Vec<u8>) -> (r: Resource)
        ensures
            r@.media_type == media_type@,
            r@.data == data@,
    {
        Resource { media_type, data }
    }

    /// The media type of the content.
    pub fn media_type(&self) -> (r: &String)
        ensures
            r@ == self@.media_type,
    {
        &self.media_type
    }

    /// The content bytes.
    pub fn data(&self) -> (r: &Vec<u8>)
        ensures
            r@ == self@.data,
    {
        &self.data
    }
}

impl Clone for Resource {
    /// Duplicates the handle: the copy stands for the same content.
    fn clone(&self) -> (r: Self)
        ensures
            r@ == self@,
    {
        Resource { media_type: self.media_type.clone(), data: self.data.clone() }
    }
}

} // verus!
