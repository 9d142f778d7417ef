//! Rendered output: content-id-bound resources, body parts, and the
//! mail-parts container handed to MIME assembly.

use vstd::prelude::*;

use crate::engine::Context;
use crate::resource::{Resource, ResourceView};

verus! {

/// The mathematical value of an [`EmbeddedWithCId`].
pub struct EmbeddedView {
    pub content_id: Seq<char>,
    pub resource: ResourceView,
    pub inline: bool,
}

/// A resource bound to a freshly allocated content id, either for inline
/// reference from rendered content or for delivery as an attachment.
#[derive(Debug)]
pub struct EmbeddedWithCId {
    content_id: String,
    resource: Resource,
    inline: bool,
}

impl View for EmbeddedWithCId {
    type V = EmbeddedView;

    closed spec fn view(&self) -> EmbeddedView {
        EmbeddedView {
            content_id: self.content_id@,
            resource: self.resource@,
            inline: self.inline,
        }
    }
}

impl EmbeddedWithCId {
    /// Binds a content id to `resource` for inline reference. The id value is
    /// the context's to pick.
    pub fn inline<C: Context>(resource: Resource, ctx: &C) -> (e: EmbeddedWithCId)
        ensures
            e@.resource == resource@,
            e@.inline == true,
    {
        EmbeddedWithCId { content_id: ctx.generate_content_id(), resource, inline: true }
    }

    /// Binds a content id to `resource` for delivery as an attachment. The id
    /// value is the context's to pick.
    pub fn attachment<C: Context>(resource: Resource, ctx: &C) -> (e: EmbeddedWithCId)
        ensures
            e@.resource == resource@,
            e@.inline == false,
    {
        EmbeddedWithCId { content_id: ctx.generate_content_id(), resource, inline: false }
    }

    /// The content id bound to the resource.
    pub fn content_id(&self) -> (r: &String)
        ensures
            r@ == self@.content_id,
    {
        &self.content_id
    }

    /// The underlying resource.
    pub fn resource(&self) -> (r: &Resource)
        ensures
            r@ == self@.resource,
    {
        &self.resource
    }

    /// Whether the resource is referenced inline rather than attached.
    pub fn is_inline(&self) -> (r: bool)
        ensures
            r == self@.inline,
    {
        self.inline
    }
}

/// One rendered body variant: the rendered content and the content-id-bound
/// values of the variant's local embeddings.
#[derive(Debug)]
pub struct BodyPart {
    pub resource: Resource,
    pub embeddings: Vec<EmbeddedWithCId>,
}

/// The aggregate render result: ordered alternative bodies, the shared
/// embedding values, and the attachment entries.
#[derive(Debug)]
pub struct MailParts {
    pub alternative_bodies: Vec<BodyPart>,
    pub shared_embeddings: Vec<EmbeddedWithCId>,
    pub attachments: Vec<EmbeddedWithCId>,
}

} // verus!
