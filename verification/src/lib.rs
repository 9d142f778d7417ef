//! A registry of named template specifications bound to a pluggable rendering
//! backend, together with the pipeline that turns a template id and a data
//! value into ordered mail body parts, inline embeddings and attachments.

pub mod engine;
pub mod errors;
pub mod laws;
pub mod mail_parts;
pub mod newlines;
pub mod pipeline;
pub mod resource;
pub mod rte;
pub mod template_spec;
mod text;
