//! The multi-part rendering pipeline: binding content ids to embeddings and
//! attachments, rendering one body variant against its two embedding scopes,
//! and normalizing line endings when the registry asks for it.

use vstd::prelude::*;

use crate::engine::{scope_view, AdditionalCIds, Context, RenderEngine};
use crate::mail_parts::{BodyPart, EmbeddedView, EmbeddedWithCId, MailParts};
use crate::newlines::{fix_newlines, normalized_newlines};
use crate::resource::{Resource, ResourceView};
use crate::template_spec::{embedding_list_view, SubSpec, SubSpecView, TemplateSpecView};

verus! {

/// Whether `b` is a content-id binding of the embedding list `src`: same
/// names and resources, pairwise and in order, every value inline, each
/// under some content id.
pub open spec fn bound_scope(
    b: Seq<(Seq<char>, EmbeddedView)>,
    src: Seq<(Seq<char>, ResourceView)>,
) -> bool {
    &&& b.len() == src.len()
    &&& forall|i: int|
        0 <= i < b.len() ==> (#[trigger] b[i]).0 == src[i].0 && b[i].1.resource == src[i].1
            && b[i].1.inline
}

/// Whether `vals` are inline content-id bindings of the embedding list
/// `src`, names dropped, pairwise and in order.
pub open spec fn embedded_values_match(
    vals: Seq<EmbeddedWithCId>,
    src: Seq<(Seq<char>, ResourceView)>,
) -> bool {
    &&& vals.len() == src.len()
    &&& forall|i: int|
        0 <= i < vals.len() ==> (#[trigger] vals[i])@.resource == src[i].1 && vals[i]@.inline
}

/// Whether a rendered body part belongs to the body variant `sub`: the
/// rendered content carries the variant's media type, and the part carries
/// the content-id-bound values of the variant's local embeddings.
pub open spec fn body_part_matches(bp: BodyPart, sub: SubSpecView) -> bool {
    &&& bp.resource@.media_type == sub.media_type
    &&& embedded_values_match(bp.embeddings@, sub.embeddings)
}

/// Whether a render result belongs to the specification `tspec`: one body
/// part per body variant, in the specification's defined order, the shared
/// embeddings bound inline, and the attachments bound as attachments.
pub open spec fn parts_match(parts: MailParts, tspec: TemplateSpecView) -> bool {
    &&& parts.alternative_bodies@.len() == tspec.sub_specs.len()
    &&& forall|i: int|
        0 <= i < tspec.sub_specs.len() ==> body_part_matches(
            #[trigger] parts.alternative_bodies@[i],
            tspec.sub_specs[i],
        )
    &&& embedded_values_match(parts.shared_embeddings@, tspec.embeddings)
    &&& parts.attachments@.len() == tspec.attachments.len()
    &&& forall|i: int|
        0 <= i < tspec.attachments.len() ==> (#[trigger] parts.attachments@[i])@.resource
            == tspec.attachments[i] && !parts.attachments@[i]@.inline
}

/// Whether body part `bp` is what rendering variant `i` of `tspec` yields:
/// its local scope `loc` binds the variant's embeddings, the engine's
/// render of the variant against the scopes [loc, sh] succeeds, the part's
/// bytes are that output — line endings normalized exactly when `fix` is
/// set — and the part carries the bound local embedding values.
pub open spec fn body_rendered<R: RenderEngine<D>, D>(
    engine: R,
    tspec: TemplateSpecView,
    data: D,
    fix: bool,
    i: int,
    loc: Seq<(Seq<char>, EmbeddedView)>,
    sh: Seq<(Seq<char>, EmbeddedView)>,
    bp: BodyPart,
) -> bool {
    &&& bound_scope(loc, tspec.sub_specs[i].embeddings)
    &&& bp.embeddings@.len() == loc.len()
    &&& forall|k: int| 0 <= k < loc.len() ==> (#[trigger] bp.embeddings@[k])@ == loc[k].1
    &&& {
        let out = engine.render_spec(tspec.sub_specs[i], data, seq![loc, sh]);
        &&& out is Ok
        &&& bp.resource@.data == (if fix {
            normalized_newlines(out->Ok_0)
        } else {
            out->Ok_0
        })
    }
}

/// Whether error `e` is a render failure of variant `i` of `tspec` against
/// bound scopes `loc` and `sh`: the whole render call aborts with the first
/// such failure.
pub open spec fn render_aborted<R: RenderEngine<D>, D>(
    engine: R,
    tspec: TemplateSpecView,
    data: D,
    e: R::RenderError,
    i: int,
    loc: Seq<(Seq<char>, EmbeddedView)>,
    sh: Seq<(Seq<char>, EmbeddedView)>,
) -> bool {
    &&& 0 <= i < tspec.sub_specs.len()
    &&& bound_scope(loc, tspec.sub_specs[i].embeddings)
    &&& bound_scope(sh, tspec.embeddings)
    &&& engine.render_spec(tspec.sub_specs[i], data, seq![loc, sh]) == Err::<Seq<u8>, _>(e)
}

/// Whether each of the first `n` parts of `bodies` is the rendering of its
/// variant of `tspec` against some local scope first and `sh` second.
pub open spec fn bodies_rendered<R: RenderEngine<D>, D>(
    engine: R,
    tspec: TemplateSpecView,
    data: D,
    fix: bool,
    sh: Seq<(Seq<char>, EmbeddedView)>,
    bodies: Seq<BodyPart>,
    n: int,
) -> bool
    decreases n,
{
    n <= 0 || {
        &&& bodies_rendered(engine, tspec, data, fix, sh, bodies, n - 1)
        &&& exists|loc: Seq<(Seq<char>, EmbeddedView)>|
            #[trigger] body_rendered(engine, tspec, data, fix, n - 1, loc, sh, bodies[n - 1])
    }
}

/// The first `n` parts being rendered looks only at those parts: any list
/// agreeing on them is rendered too.
pub proof fn lemma_bodies_rendered_prefix<R: RenderEngine<D>, D>(
    engine: R,
    tspec: TemplateSpecView,
    data: D,
    fix: bool,
    sh: Seq<(Seq<char>, EmbeddedView)>,
    b1: Seq<BodyPart>,
    b2: Seq<BodyPart>,
    n: int,
)
    requires
        bodies_rendered(engine, tspec, data, fix, sh, b1, n),
        forall|j: int| 0 <= j < n ==> b1[j] == b2[j],
    ensures
        bodies_rendered(engine, tspec, data, fix, sh, b2, n),
    decreases n,
{
    if n > 0 {
        lemma_bodies_rendered_prefix(engine, tspec, data, fix, sh, b1, b2, n - 1);
        let l0 = choose|loc: Seq<(Seq<char>, EmbeddedView)>|
            #[trigger] body_rendered(engine, tspec, data, fix, n - 1, loc, sh, b1[n - 1]);
        assert(body_rendered(engine, tspec, data, fix, n - 1, l0, sh, b2[n - 1]));
    }
}

/// Appending the rendering of the next variant keeps the bodies rendered.
pub proof fn lemma_bodies_rendered_push<R: RenderEngine<D>, D>(
    engine: R,
    tspec: TemplateSpecView,
    data: D,
    fix: bool,
    sh: Seq<(Seq<char>, EmbeddedView)>,
    pre: Seq<BodyPart>,
    bp: BodyPart,
    loc: Seq<(Seq<char>, EmbeddedView)>,
)
    requires
        bodies_rendered(engine, tspec, data, fix, sh, pre, pre.len() as int),
        body_rendered(engine, tspec, data, fix, pre.len() as int, loc, sh, bp),
    ensures
        bodies_rendered(engine, tspec, data, fix, sh, pre.push(bp), pre.len() as int + 1),
{
    let p = pre.push(bp);
    let n = pre.len() as int;
    lemma_bodies_rendered_prefix(engine, tspec, data, fix, sh, pre, p, n);
    assert(p[n] == bp);
    assert(body_rendered(engine, tspec, data, fix, n, loc, sh, p[n]));
}

/// Whether `parts` is what rendering `tspec` yields when the shared scope
/// was bound to `sh`: the shared embedding values are those of `sh`, and
/// every body part is the rendering of its variant against its own local
/// scope first and `sh` second.
pub open spec fn rendered_with_scopes<R: RenderEngine<D>, D>(
    engine: R,
    tspec: TemplateSpecView,
    data: D,
    fix: bool,
    parts: MailParts,
    sh: Seq<(Seq<char>, EmbeddedView)>,
) -> bool {
    &&& bound_scope(sh, tspec.embeddings)
    &&& parts.shared_embeddings@.len() == sh.len()
    &&& forall|k: int| 0 <= k < sh.len() ==> (#[trigger] parts.shared_embeddings@[k])@ == sh[k].1
    &&& bodies_rendered(
        engine,
        tspec,
        data,
        fix,
        sh,
        parts.alternative_bodies@,
        tspec.sub_specs.len() as int,
    )
}

/// Whether `parts` is what a full render of `tspec` yields: the parts as
/// rendered against some content-id binding of the shared scope.
pub open spec fn rendered<R: RenderEngine<D>, D>(
    engine: R,
    tspec: TemplateSpecView,
    data: D,
    fix: bool,
    parts: MailParts,
) -> bool {
    exists|sh: Seq<(Seq<char>, EmbeddedView)>|
        #[trigger] rendered_with_scopes(engine, tspec, data, fix, parts, sh)
}

/// Whether `e` is what a full render of `tspec` aborts with: the engine's
/// failure on one of the variants against some bound scopes.
pub open spec fn render_failed<R: RenderEngine<D>, D>(
    engine: R,
    tspec: TemplateSpecView,
    data: D,
    e: R::RenderError,
) -> bool {
    exists|i: int, loc: Seq<(Seq<char>, EmbeddedView)>, sh: Seq<(Seq<char>, EmbeddedView)>|
        #[trigger] render_aborted(engine, tspec, data, e, i, loc, sh)
}

/// Binds a content id to one embedding: the name is kept, the resource is
/// put under a context-allocated id, inline.
fn create_embedding<C: Context>(key: &str, resource: &Resource, ctx: &C) -> (r: (
    String,
    EmbeddedWithCId,
))
    ensures
        r.0@ == key@,
        r.1@.resource == resource@,
        r.1@.inline,
{
    (key.to_owned(), EmbeddedWithCId::inline(resource.clone(), ctx))
}

/// Binds a content id to every embedding of `list`, in order.
pub fn bind_embeddings<C: Context>(list: &Vec<(String, Resource)>, ctx: &C) -> (r: Vec<
    (String, EmbeddedWithCId),
>)
    ensures
        bound_scope(scope_view(r@), embedding_list_view(list@)),
{
    let mut r: Vec<(String, EmbeddedWithCId)> = Vec::new();
    let mut i: usize = 0;
    while i < list.len()
        invariant
            i <= list@.len(),
            r@.len() == i,
            forall|j: int|
                0 <= j < i ==> (#[trigger] r@[j]).0@ == list@[j].0@ && r@[j].1@.resource
                    == list@[j].1@ && r@[j].1@.inline,
        decreases list@.len() - i,
    {
        let bound = create_embedding(list[i].0.as_str(), &list[i].1, ctx);
        r.push(bound);
        i = i + 1;
    }
    r
}

/// Binds a content id to every attachment resource of `list`, in order,
/// with attachment disposition.
pub fn bind_attachments<C: Context>(list: &Vec<Resource>, ctx: &C) -> (r: Vec<EmbeddedWithCId>)
    ensures
        r@.len() == list@.len(),
        forall|i: int|
            0 <= i < list@.len() ==> (#[trigger] r@[i])@.resource == list@[i]@
                && !r@[i]@.inline,
{
    let mut r: Vec<EmbeddedWithCId> = Vec::new();
    let mut i: usize = 0;
    while i < list.len()
        invariant
            i <= list@.len(),
            r@.len() == i,
            forall|j: int|
                0 <= j < i ==> (#[trigger] r@[j])@.resource == list@[j]@ && !r@[j]@.inline,
        decreases list@.len() - i,
    {
        let bound = EmbeddedWithCId::attachment(list[i].clone(), ctx);
        r.push(bound);
        i = i + 1;
    }
    r
}

/// Drops the names of a bound embedding list, keeping the content-id-bound
/// values in order.
pub fn embedded_values(list: Vec<(String, EmbeddedWithCId)>) -> (r: Vec<EmbeddedWithCId>)
    ensures
        r@ == list@.map_values(|p: (String, EmbeddedWithCId)| p.1),
{
    let ghost orig = list@;
    let mut list = list;
    let mut r: Vec<EmbeddedWithCId> = Vec::new();
    proof {
        assert(orig.skip(0) =~= orig);
    }
    while list.len() > 0
        invariant
            r@.len() <= orig.len(),
            list@ == orig.skip(r@.len() as int),
            r@ == orig.take(r@.len() as int).map_values(|p: (String, EmbeddedWithCId)| p.1),
        decreases list@.len(),
    {
        let ghost done = r@.len() as int;
        let p = list.remove(0);
        proof {
            assert(p == orig[done]);
            assert(orig.skip(done).remove(0) =~= orig.skip(done + 1));
        }
        r.push(p.1);
        proof {
            assert(r@ =~= orig.take(done + 1).map_values(
                |p: (String, EmbeddedWithCId)| p.1,
            ));
        }
    }
    proof {
        assert(orig.take(orig.len() as int) =~= orig);
    }
    r
}

/// Renders one body variant: builds the two-scope content-id list (local
/// before shared), renders through the engine, normalizes line endings when
/// `fix` is set, and wraps the bytes with the variant's media type into a
/// body part carrying the local embedding values.
pub fn render_body_part<R, D>(
    engine: &R,
    sub: &SubSpec,
    data: &D,
    local: Vec<(String, EmbeddedWithCId)>,
    shared: &Vec<(String, EmbeddedWithCId)>,
    fix: bool,
) -> (r: Result<BodyPart, R::RenderError>) where R: RenderEngine<D>
    ensures
        match r {
            Ok(bp) => ({
                let out = engine.render_spec(
                    sub@,
                    *data,
                    seq![scope_view(local@), scope_view(shared@)],
                );
                &&& out is Ok
                &&& bp.resource@.data == (if fix {
                    normalized_newlines(out->Ok_0)
                } else {
                    out->Ok_0
                })
                &&& bp.resource@.media_type == sub@.media_type
                &&& bp.embeddings@ == local@.map_values(|p: (String, EmbeddedWithCId)| p.1)
            }),
            Err(e) => engine.render_spec(
                sub@,
                *data,
                seq![scope_view(local@), scope_view(shared@)],
            ) == Err::<Seq<u8>, R::RenderError>(e),
        },
{
    let cids = AdditionalCIds::new(&local, shared);
    let rendered = match engine.render(sub, data, &cids) {
        Ok(bytes) => bytes,
        Err(e) => {
            return Err(e);
        },
    };
    let body_bytes = if fix {
        fix_newlines(rendered)
    } else {
        rendered
    };
    let resource = Resource::new(sub.media_type().clone(), body_bytes);
    Ok(BodyPart { resource, embeddings: embedded_values(local) })
}

} // verus!
