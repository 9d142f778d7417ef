//! The backend contract: the capability set a rendering engine must provide,
//! the content-id-allocating context, and the ordered embedding scopes a
//! render call resolves names against.

use vstd::multiset::Multiset;
use vstd::prelude::*;

use crate::mail_parts::{EmbeddedView, EmbeddedWithCId};
use crate::template_spec::{SubSpec, SubSpecView, TemplateSpec, TemplateSpecView};
use crate::text::str_eq;

verus! {

/// Supplies content-id allocation for embeddings and attachments.
///
/// Nothing is promised of the returned value: the allocation policy belongs
/// to the context, which is expected to hand out effectively unique ids.
pub trait Context: Sized {
    /// Allocates a content id.
    fn generate_content_id(&self) -> (cid: String);
}

/// The mathematical value of one embedding scope: name and bound-value pairs,
/// in order.
pub open spec fn scope_view(l: Seq<(String, EmbeddedWithCId)>) -> Seq<(Seq<char>, EmbeddedView)> {
    l.map_values(|p: (String, EmbeddedWithCId)| (p.0@, p.1@))
}

/// The first binding of `name` in one scope, if any.
pub open spec fn scope_find(scope: Seq<(Seq<char>, EmbeddedView)>, name: Seq<char>) -> Option<
    EmbeddedView,
>
    decreases scope.len(),
{
    if scope.len() == 0 {
        None
    } else if scope[0].0 == name {
        Some(scope[0].1)
    } else {
        scope_find(scope.drop_first(), name)
    }
}

/// The content id `name` resolves to against an ordered list of scopes: the
/// first scope that binds the name wins.
pub open spec fn resolve_content_id(
    scopes: Seq<Seq<(Seq<char>, EmbeddedView)>>,
    name: Seq<char>,
) -> Option<Seq<char>>
    decreases scopes.len(),
{
    if scopes.len() == 0 {
        None
    } else {
        match scope_find(scopes[0], name) {
            Some(e) => Some(e.content_id),
            None => resolve_content_id(scopes.drop_first(), name),
        }
    }
}

/// The ordered embedding scopes of one render call: the variant's local
/// scope first, the specification's shared scope second, so that a local
/// binding shadows a shared one of the same name.
pub struct AdditionalCIds<'a> {
    local: &'a Vec<(String, EmbeddedWithCId)>,
    shared: &'a Vec<(String, EmbeddedWithCId)>,
}

impl<'a> View for AdditionalCIds<'a> {
    type V = Seq<Seq<(Seq<char>, EmbeddedView)>>;

    closed spec fn view(&self) -> Seq<Seq<(Seq<char>, EmbeddedView)>> {
        seq![scope_view(self.local@), scope_view(self.shared@)]
    }
}

impl<'a> AdditionalCIds<'a> {
    /// Puts the two scopes in resolution order: local before shared.
    pub fn new(
        local: &'a Vec<(String, EmbeddedWithCId)>,
        shared: &'a Vec<(String, EmbeddedWithCId)>,
    ) -> (r: AdditionalCIds<'a>)
        ensures
            r@ == seq![scope_view(local@), scope_view(shared@)],
    {
        AdditionalCIds { local, shared }
    }

    /// The content id `name` resolves to, the local scope taking precedence
    /// over the shared one.
    pub fn get(&self, name: &str) -> (r: Option<&String>)
        ensures
            match r {
                Some(cid) => resolve_content_id(self@, name@) == Some(cid@),
                None => resolve_content_id(self@, name@) is None,
            },
    {
        proof {
            assert(self@[0] == scope_view(self.local@));
            assert(self@.drop_first()[0] == scope_view(self.shared@));
            assert(self@.drop_first().drop_first().len() == 0);
        }
        match find_in_scope(self.local, name) {
            Some(e) => {
                proof {
                    assert(resolve_content_id(self@, name@) == Some(e@.content_id));
                }
                Some(e.content_id())
            },
            None => {
                proof {
                    assert(resolve_content_id(self@, name@) == resolve_content_id(
                        self@.drop_first(),
                        name@,
                    ));
                }
                match find_in_scope(self.shared, name) {
                    Some(e) => {
                        proof {
                            assert(resolve_content_id(self@.drop_first(), name@) == Some(
                                e@.content_id,
                            ));
                        }
                        Some(e.content_id())
                    },
                    None => {
                        proof {
                            assert(resolve_content_id(self@.drop_first(), name@)
                                == resolve_content_id(self@.drop_first().drop_first(), name@));
                            assert(resolve_content_id(
                                self@.drop_first().drop_first(),
                                name@,
                            ) is None);
                        }
                        None
                    },
                }
            },
        }
    }
}

/// The first entry of `list` bound to `name`, searched front to back.
fn find_in_scope<'b>(list: &'b Vec<(String, EmbeddedWithCId)>, name: &str) -> (r: Option<
    &'b EmbeddedWithCId,
>)
    ensures
        match r {
            Some(e) => scope_find(scope_view(list@), name@) == Some(e@),
            None => scope_find(scope_view(list@), name@) is None,
        },
{
    let ghost full = scope_view(list@);
    let mut i: usize = 0;
    proof {
        assert(full.skip(0) =~= full);
    }
    while i < list.len()
        invariant
            i <= list.len(),
            full == scope_view(list@),
            scope_find(full, name@) == scope_find(full.skip(i as int), name@),
        decreases list.len() - i,
    {
        proof {
            assert(full.skip(i as int)[0] == (list@[i as int].0@, list@[i as int].1@));
            assert(full.skip(i as int).drop_first() =~= full.skip(i as int + 1));
        }
        if str_eq(list[i].0.as_str(), name) {
            return Some(&list[i].1);
        }
        i = i + 1;
    }
    proof {
        assert(full.skip(list@.len() as int).len() == 0);
    }
    None
}

/// The capability set every rendering engine offers the registry: loading
/// and unloading of template specifications, a newline-validity declaration,
/// and the engine's own representation of the unknown-template-id error.
///
/// `loaded` is the engine's model of its backend-loaded state: the
/// specifications it currently holds compiled, as a multiset since the same
/// specification value may be registered under several ids.
pub trait RenderEngineBase: Sized {
    /// The engine's error for a specification that fails to compile/register.
    type LoadingError;

    /// The engine's error for a failed render call.
    type RenderError;

    /// The specifications currently loaded in the backend. A verified
    /// engine overrides this with its own model.
    open spec fn loaded(&self) -> Multiset<TemplateSpecView> {
        Multiset::empty()
    }

    /// Whether rendered output is declared to carry valid newlines already.
    open spec fn valid_newlines() -> bool {
        false
    }

    /// The engine's representation of the "unknown template id" error.
    open spec fn unknown_template_id_spec(id: Seq<char>) -> Self::RenderError {
        arbitrary()
    }

    /// Declares whether the engine's output carries valid newlines; when it
    /// does not, the pipeline normalizes line endings after each render.
    fn produces_valid_newlines() -> (r: bool)
        ensures
            r == Self::valid_newlines(),
    ;

    /// Builds the "unknown template id" error for `id`.
    fn unknown_template_id_error(id: &str) -> (e: Self::RenderError)
        ensures
            e == Self::unknown_template_id_spec(id@),
    ;

    /// Compiles and registers all templates of `spec`. On success the
    /// specification joins the backend-loaded state; on failure the
    /// backend-loaded state is unchanged.
    fn load_templates(&mut self, spec: &TemplateSpec) -> (r: Result<(), Self::LoadingError>)
        ensures
            r is Ok ==> final (self).loaded() == old(self).loaded().insert(spec@),
            r is Err ==> final (self).loaded() == old(self).loaded(),
    ;

    /// Releases the resources tied to a previously loaded specification.
    /// Unloading does not fail.
    fn unload_templates(&mut self, spec: &TemplateSpec)
        ensures
            final (self).loaded() == old(self).loaded().remove(spec@),
    ;
}

/// A rendering engine for data values of type `D`.
pub trait RenderEngine<D>: RenderEngineBase {
    /// The bytes (or error) a render call produces, as a function of the
    /// engine state, the body variant, the data value and the embedding
    /// scopes.
    open spec fn render_spec(
        &self,
        sub: SubSpecView,
        data: D,
        cids: Seq<Seq<(Seq<char>, EmbeddedView)>>,
    ) -> Result<Seq<u8>, Self::RenderError> {
        arbitrary()
    }

    /// Renders one body variant against `data`, resolving embedding
    /// references through `cids` (first scope wins).
    fn render(&self, sub: &SubSpec, data: &D, cids: &AdditionalCIds<'_>) -> (r: Result<
        Vec<u8>,
        Self::RenderError,
    >)
        ensures
            match r {
                Ok(bytes) => self.render_spec(sub@, *data, cids@) == Ok::<_, Self::RenderError>(
                    bytes@,
                ),
                Err(e) => self.render_spec(sub@, *data, cids@) == Err::<Seq<u8>, _>(e),
            },
    ;
}

} // verus!
