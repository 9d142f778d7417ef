//! Error values surfaced by the registry.

use vstd::prelude::*;

use crate::template_spec::TemplateSpec;

verus! {

/// A failed insertion: the backend could not load the new specification.
///
/// Carries the specification that failed to load, so the caller can inspect
/// or retry it, and the specification it would have replaced, if any. When
/// this error is returned the affected id is unused in the registry, and the
/// backend state for the old value has already been torn down: `old_value`
/// is informational only.
#[derive(Debug)]
pub struct InsertionError<E> {
    pub error: E,
    pub failed_new_value: TemplateSpec,
    pub old_value: Option<TemplateSpec>,
}

} // verus!
