//! Template specifications: one named template group, made of an ordered
//! sequence of body variants, a set of embeddings shared by every variant,
//! and a list of attachments.

use vstd::prelude::*;

use crate::resource::{Resource, ResourceView};

verus! {

/// The mathematical value of an embedding list: name and resource pairs,
/// in order.
pub open spec fn embedding_list_view(l: Seq<(String, Resource)>) -> Seq<
    (Seq<char>, ResourceView),
> {
    l.map_values(|p: (String, Resource)| (p.0@, p.1@))
}

/// Whether the names of an embedding list are mutually distinct, so that the
/// list is a mapping from name to resource.
pub open spec fn embedding_names_unique(l: Seq<(Seq<char>, ResourceView)>) -> bool {
    forall|i: int, j: int| 0 <= i < j < l.len() ==> l[i].0 != l[j].0
}

/// The mathematical value of a [`SubSpec`].
pub struct SubSpecView {
    pub media_type: Seq<char>,
    pub template: Seq<char>,
    pub embeddings: Seq<(Seq<char>, ResourceView)>,
}

/// One body variant of a template group: a media type, a backend-specific
/// reference to the template content, and the embeddings local to this
/// variant.
#[derive(Debug)]
pub struct SubSpec {
    media_type: String,
    template: String,
    embeddings: Vec<(String, Resource)>,
}

impl View for SubSpec {
    type V = SubSpecView;

    closed spec fn view(&self) -> SubSpecView {
        SubSpecView {
            media_type: self.media_type@,
            template: self.template@,
            embeddings: embedding_list_view(self.embeddings@),
        }
    }
}

impl SubSpec {
    /// Builds a body variant from its media type, its backend-specific
    /// template reference, and its local embeddings.
    pub fn new(media_type: String, template: String, embeddings: Vec<(String, Resource)>) -> (r:
        SubSpec)
        requires
            embedding_names_unique(embedding_list_view(embeddings@)),
        ensures
            r@.media_type == media_type@,
            r@.template == template@,
            r@.embeddings == embedding_list_view(embeddings@),
    {
        SubSpec { media_type, template, embeddings }
    }

    /// The media type rendered output of this variant carries.
    pub fn media_type(&self) -> (r: &String)
        ensures
            r@ == self@.media_type,
    {
        &self.media_type
    }

    /// The backend-specific reference to the template content.
    pub fn template(&self) -> (r: &String)
        ensures
            r@ == self@.template,
    {
        &self.template
    }

    /// The embeddings local to this variant, as name and resource pairs.
    pub fn embeddings(&self) -> (r: &Vec<(String, Resource)>)
        ensures
            embedding_list_view(r@) == self@.embeddings,
    {
        &self.embeddings
    }
}

/// The mathematical value of a [`TemplateSpec`].
pub struct TemplateSpecView {
    pub sub_specs: Seq<SubSpecView>,
    pub embeddings: Seq<(Seq<char>, ResourceView)>,
    pub attachments: Seq<ResourceView>,
}

impl TemplateSpecView {
    /// A well-formed specification has at least one body variant, and its
    /// embedding names form mappings.
    pub open spec fn wf(self) -> bool {
        &&& self.sub_specs.len() >= 1
        &&& embedding_names_unique(self.embeddings)
        &&& forall|i: int|
            0 <= i < self.sub_specs.len() ==> embedding_names_unique(
                #[trigger] self.sub_specs[i].embeddings,
            )
    }
}

/// One named template group: an ordered, non-empty sequence of body variants,
/// embeddings shared across all of them, and attachments.
#[derive(Debug)]
pub struct TemplateSpec {
    sub_specs: Vec<SubSpec>,
    embeddings: Vec<(String, Resource)>,
    attachments: Vec<Resource>,
}

impl View for TemplateSpec {
    type V = TemplateSpecView;

    closed spec fn view(&self) -> TemplateSpecView {
        TemplateSpecView {
            sub_specs: self.sub_specs@.map_values(|s: SubSpec| s@),
            embeddings: embedding_list_view(self.embeddings@),
            attachments: self.attachments@.map_values(|r: Resource| r@),
        }
    }
}

impl TemplateSpec {
    /// Builds a specification from its body variants, shared embeddings and
    /// attachments. A specification has one body variant at least.
    pub fn new(
        sub_specs: Vec<SubSpec>,
        embeddings: Vec<(String, Resource)>,
        attachments: Vec<Resource>,
    ) -> (r: TemplateSpec)
        requires
            sub_specs@.len() >= 1,
            embedding_names_unique(embedding_list_view(embeddings@)),
        ensures
            r@.sub_specs == sub_specs@.map_values(|s: SubSpec| s@),
            r@.embeddings == embedding_list_view(embeddings@),
            r@.attachments == attachments@.map_values(|a: Resource| a@),
            r@.sub_specs.len() >= 1,
    {
        TemplateSpec { sub_specs, embeddings, attachments }
    }

    /// The body variants, in their defined order.
    pub fn sub_specs(&self) -> (r: &Vec<SubSpec>)
        ensures
            r@.map_values(|s: SubSpec| s@) == self@.sub_specs,
    {
        &self.sub_specs
    }

    /// The embeddings shared by all body variants, as name and resource pairs.
    pub fn embeddings(&self) -> (r: &Vec<(String, Resource)>)
        ensures
            embedding_list_view(r@) == self@.embeddings,
    {
        &self.embeddings
    }

    /// The attachment resources.
    pub fn attachments(&self) -> (r: &Vec<Resource>)
        ensures
            r@.map_values(|a: Resource| a@) == self@.attachments,
    {
        &self.attachments
    }
}

} // verus!
