//! Laws of the registry lifecycle and of embedding resolution, stated over
//! the same mathematical models the operation contracts use: the registry
//! operations speak of `Map` values, and a render call's name resolution
//! speaks of ordered embedding scopes.

use vstd::prelude::*;

use crate::engine::{resolve_content_id, scope_find};
use crate::mail_parts::EmbeddedView;
use crate::template_spec::TemplateSpecView;

verus! {

/// Inserting a specification under a fresh id: the id was unused, and a
/// subsequent lookup finds exactly the new specification.
pub proof fn lemma_insert_fresh_then_lookup(
    m: Map<Seq<char>, TemplateSpecView>,
    id: Seq<char>,
    s: TemplateSpecView,
)
    requires
        !m.contains_key(id),
    ensures
        m.insert(id, s).contains_key(id),
        m.insert(id, s)[id] == s,
{
}

/// Replacing the specification of an id in use: a subsequent lookup finds
/// exactly the new specification, not the replaced one.
pub proof fn lemma_insert_replace_then_lookup(
    m: Map<Seq<char>, TemplateSpecView>,
    id: Seq<char>,
    s: TemplateSpecView,
)
    requires
        m.contains_key(id),
    ensures
        m.insert(id, s).contains_key(id),
        m.insert(id, s)[id] == s,
{
}

/// After a failed insertion the id is unused — whether the id was fresh or
/// in use before, the registry maps to `m.remove(id)`, where a lookup finds
/// nothing; in particular a failed replacement is not reverted to the old
/// specification.
pub proof fn lemma_failed_insert_leaves_id_unused(
    m: Map<Seq<char>, TemplateSpecView>,
    id: Seq<char>,
)
    ensures
        !m.remove(id).contains_key(id),
{
}

/// Removal: afterward the id is unused, and removing an unused id leaves
/// the registry exactly as it was.
pub proof fn lemma_remove_then_lookup(m: Map<Seq<char>, TemplateSpecView>, id: Seq<char>)
    ensures
        !m.remove(id).contains_key(id),
        !m.contains_key(id) ==> m.remove(id) == m,
{
    if !m.contains_key(id) {
        assert(m.remove(id) =~= m);
    }
}

/// A scope that binds a name somewhere yields a binding for it.
proof fn lemma_scope_find_some(scope: Seq<(Seq<char>, EmbeddedView)>, name: Seq<char>)
    requires
        exists|i: int| 0 <= i < scope.len() && (#[trigger] scope[i]).0 == name,
    ensures
        scope_find(scope, name) is Some,
    decreases scope.len(),
{
    let i = choose|i: int| 0 <= i < scope.len() && (#[trigger] scope[i]).0 == name;
    if scope[0].0 != name {
        assert(scope.drop_first()[i - 1] == scope[i]);
        lemma_scope_find_some(scope.drop_first(), name);
    }
}

/// A local binding shadows a shared one: when the local scope binds a name
/// anywhere, resolution against [local, shared] yields the local binding's
/// content id, whatever the shared scope holds for that name.
pub proof fn lemma_local_shadows_shared(
    local: Seq<(Seq<char>, EmbeddedView)>,
    shared: Seq<(Seq<char>, EmbeddedView)>,
    name: Seq<char>,
)
    requires
        exists|i: int| 0 <= i < local.len() && (#[trigger] local[i]).0 == name,
    ensures
        scope_find(local, name) is Some,
        resolve_content_id(seq![local, shared], name) == Some(
            scope_find(local, name)->Some_0.content_id,
        ),
{
    lemma_scope_find_some(local, name);
    assert(seq![local, shared][0] == local);
}

} // verus!
