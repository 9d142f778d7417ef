//! The template-spec registry: the id-to-specification mapping and its
//! load/unload lifecycle against the rendering backend, together with the
//! multi-part rendering pipeline.

use vstd::multiset::Multiset;
use vstd::prelude::*;

use crate::engine::{scope_view, Context, RenderEngine, RenderEngineBase};
use crate::errors::InsertionError;
use crate::mail_parts::{BodyPart, EmbeddedView, MailParts};
use crate::pipeline::{
    bind_attachments, bind_embeddings, bodies_rendered, body_part_matches, body_rendered,
    bound_scope, embedded_values, lemma_bodies_rendered_push, parts_match, render_aborted,
    render_body_part, render_failed, rendered, rendered_with_scopes,
};
use crate::template_spec::{SubSpec, TemplateSpec, TemplateSpecView};
use crate::text::str_eq;

verus! {

broadcast use vstd::seq_lib::group_to_multiset_ensures, vstd::multiset::group_multiset_axioms;

/// The mathematical value of the registry's entry list: id and specification
/// pairs, in insertion order.
pub open spec fn entries_view(s: Seq<(String, TemplateSpec)>) -> Seq<
    (Seq<char>, TemplateSpecView),
> {
    s.map_values(|p: (String, TemplateSpec)| (p.0@, p.1@))
}

/// Whether the ids of an entry list are mutually distinct.
pub open spec fn keys_unique(s: Seq<(Seq<char>, TemplateSpecView)>) -> bool {
    forall|i: int, j: int|
        0 <= i < j < s.len() ==> (#[trigger] s[i]).0 != (#[trigger] s[j]).0
}

/// Whether some entry of `s` carries the id `k`.
pub open spec fn has_key(s: Seq<(Seq<char>, TemplateSpecView)>, k: Seq<char>) -> bool {
    exists|i: int| 0 <= i < s.len() && (#[trigger] s[i]).0 == k
}

/// The position of the entry carrying the id `k`.
pub open spec fn key_index(s: Seq<(Seq<char>, TemplateSpecView)>, k: Seq<char>) -> int {
    choose|i: int| 0 <= i < s.len() && (#[trigger] s[i]).0 == k
}

/// The entry list as a mapping from id to specification.
pub open spec fn entries_map(s: Seq<(Seq<char>, TemplateSpecView)>) -> Map<
    Seq<char>,
    TemplateSpecView,
> {
    Map::new(|k: Seq<char>| has_key(s, k), |k: Seq<char>| s[key_index(s, k)].1)
}

/// The specifications of an entry list, as a multiset: the same
/// specification value may be registered under several ids.
pub open spec fn stored_multiset(s: Seq<(Seq<char>, TemplateSpecView)>) -> Multiset<
    TemplateSpecView,
> {
    s.map_values(|e: (Seq<char>, TemplateSpecView)| e.1).to_multiset()
}

/// The entry at a position is found under its own id.
proof fn lemma_key_at(s: Seq<(Seq<char>, TemplateSpecView)>, i: int)
    requires
        keys_unique(s),
        0 <= i < s.len(),
    ensures
        has_key(s, s[i].0),
        key_index(s, s[i].0) == i,
        entries_map(s).contains_key(s[i].0),
        entries_map(s)[s[i].0] == s[i].1,
{
    assert(has_key(s, s[i].0));
    let j = key_index(s, s[i].0);
    assert(0 <= j < s.len() && s[j].0 == s[i].0);
    if i < j {
        assert(s[i].0 != s[j].0);
    } else if j < i {
        assert(s[j].0 != s[i].0);
    }
}

/// Appending an entry under a fresh id extends the mapping by that id.
proof fn lemma_push(s: Seq<(Seq<char>, TemplateSpecView)>, id: Seq<char>, v: TemplateSpecView)
    requires
        keys_unique(s),
        !has_key(s, id),
    ensures
        keys_unique(s.push((id, v))),
        entries_map(s.push((id, v))) == entries_map(s).insert(id, v),
        stored_multiset(s.push((id, v))) == stored_multiset(s).insert(v),
{
    let p = s.push((id, v));
    assert forall|a: int, b: int| 0 <= a < b < p.len() implies (#[trigger] p[a]).0 != (
    #[trigger] p[b]).0 by {
        if b < s.len() {
            assert(p[a] == s[a] && p[b] == s[b]);
        } else {
            assert(p[b].0 == id);
            assert(p[a] == s[a]);
            if s[a].0 == id {
                assert(has_key(s, id));
            }
        }
    }
    assert(entries_map(p) =~= entries_map(s).insert(id, v)) by {
        assert forall|k: Seq<char>| #[trigger] has_key(p, k) implies has_key(s, k) || k
            == id by {
            let j = choose|j: int| 0 <= j < p.len() && (#[trigger] p[j]).0 == k;
            if j < s.len() {
                assert(s[j].0 == k);
            }
        }
        assert forall|k: Seq<char>| has_key(s, k) implies #[trigger] has_key(p, k) by {
            let j = choose|j: int| 0 <= j < s.len() && (#[trigger] s[j]).0 == k;
            assert(p[j].0 == k);
        }
        assert(p[s.len() as int].0 == id);
        assert(has_key(p, id));
        assert forall|k: Seq<char>| #[trigger] has_key(p, k) implies entries_map(p)[k]
            == entries_map(s).insert(id, v)[k] by {
            let j = key_index(p, k);
            assert(0 <= j < p.len() && p[j].0 == k);
            if k == id {
                if j < s.len() {
                    assert(s[j].0 == id);
                    assert(has_key(s, id));
                }
                assert(j == s.len());
                assert(entries_map(p)[k] == v);
            } else {
                assert(j < s.len());
                assert(s[j].0 == k);
                assert(has_key(s, k));
                lemma_key_at(s, j);
                assert(key_index(s, k) == j);
                assert(entries_map(p)[k] == p[j].1 && p[j].1 == s[j].1);
            }
        }
    }
    let f = |e: (Seq<char>, TemplateSpecView)| e.1;
    assert(p.map_values(f) =~= s.map_values(f).push(v));
    assert(stored_multiset(p) =~= stored_multiset(s).insert(v));
}

/// Removing the entry at a position removes its id from the mapping.
proof fn lemma_remove(s: Seq<(Seq<char>, TemplateSpecView)>, i: int)
    requires
        keys_unique(s),
        0 <= i < s.len(),
    ensures
        keys_unique(s.remove(i)),
        !has_key(s.remove(i), s[i].0),
        entries_map(s.remove(i)) == entries_map(s).remove(s[i].0),
        stored_multiset(s.remove(i)) == stored_multiset(s).remove(s[i].1),
{
    let r = s.remove(i);
    assert forall|a: int| 0 <= a < r.len() implies r[a] == (if a < i {
        s[a]
    } else {
        s[a + 1]
    }) by {}
    assert forall|a: int, b: int| 0 <= a < b < r.len() implies (#[trigger] r[a]).0 != (
    #[trigger] r[b]).0 by {
        let a0 = if a < i { a } else { a + 1 };
        let b0 = if b < i { b } else { b + 1 };
        assert(r[a] == s[a0] && r[b] == s[b0]);
        assert(a0 < b0);
    }
    assert forall|a: int| 0 <= a < r.len() implies (#[trigger] r[a]).0 != s[i].0 by {
        let a0 = if a < i { a } else { a + 1 };
        assert(r[a] == s[a0] && a0 != i);
        if a0 < i {
            assert(s[a0].0 != s[i].0);
        } else {
            assert(s[i].0 != s[a0].0);
        }
    }
    assert(entries_map(r) =~= entries_map(s).remove(s[i].0)) by {
        assert forall|k: Seq<char>| #[trigger] has_key(r, k) implies has_key(s, k) && k
            != s[i].0 by {
            let j = choose|j: int| 0 <= j < r.len() && (#[trigger] r[j]).0 == k;
            let j0 = if j < i { j } else { j + 1 };
            assert(s[j0].0 == k);
        }
        assert forall|k: Seq<char>| has_key(s, k) && k != s[i].0 implies #[trigger] has_key(
            r,
            k,
        ) by {
            let j = choose|j: int| 0 <= j < s.len() && (#[trigger] s[j]).0 == k;
            assert(j != i);
            let j1 = if j < i { j } else { j - 1 };
            assert(r[j1].0 == k);
        }
        assert forall|k: Seq<char>| #[trigger] has_key(r, k) implies entries_map(r)[k]
            == entries_map(s).remove(s[i].0)[k] by {
            let j = key_index(r, k);
            assert(0 <= j < r.len() && r[j].0 == k);
            let j0 = if j < i { j } else { j + 1 };
            assert(s[j0].0 == k);
            assert(has_key(s, k));
            lemma_key_at(s, j0);
            assert(entries_map(r)[k] == r[j].1 && r[j].1 == s[j0].1);
        }
    }
    let f = |e: (Seq<char>, TemplateSpecView)| e.1;
    assert(s.map_values(f).remove(i) =~= r.map_values(f));
    assert(s.map_values(f).remove(i).to_multiset() == s.map_values(f).to_multiset().remove(
        s.map_values(f)[i],
    ));
    assert(stored_multiset(r) == stored_multiset(s).remove(s[i].1));
}

/// Replacing the specification at a position, keeping its id, keeps the ids
/// unique.
proof fn lemma_keys_unique_update(
    s: Seq<(Seq<char>, TemplateSpecView)>,
    i: int,
    v: TemplateSpecView,
)
    requires
        keys_unique(s),
        0 <= i < s.len(),
    ensures
        keys_unique(s.update(i, (s[i].0, v))),
{
    let u = s.update(i, (s[i].0, v));
    assert forall|a: int, b: int|
        0 <= a < b < u.len() implies (#[trigger] u[a]).0 != (#[trigger] u[b]).0 by {
        assert(u[a].0 == s[a].0 && u[b].0 == s[b].0);
    }
}

/// The registry: the mapping from template id to specification, the backing
/// rendering engine, and the newline-normalization switch.
///
/// The registry enforces the load/unload lifecycle: outside the failure
/// window of an insertion, the specifications stored here are exactly the
/// specifications loaded in the backend (see [`Self::consistent`]).
pub struct RenderTemplateEngine<R> where R: RenderEngineBase {
    fix_newlines: bool,
    render_engine: R,
    id2spec: Vec<(String, TemplateSpec)>,
}

impl<R> RenderTemplateEngine<R> where R: RenderEngineBase {
    /// The entry list, in insertion order.
    pub closed spec fn entries(&self) -> Seq<(Seq<char>, TemplateSpecView)> {
        entries_view(self.id2spec@)
    }

    /// Ids are unique within the registry at any instant.
    pub open spec fn wf(&self) -> bool {
        keys_unique(self.entries())
    }

    /// The id-to-specification mapping.
    pub open spec fn registry(&self) -> Map<Seq<char>, TemplateSpecView> {
        entries_map(self.entries())
    }

    /// The specifications currently registered, as a multiset.
    pub open spec fn stored(&self) -> Multiset<TemplateSpecView> {
        stored_multiset(self.entries())
    }

    /// The backing rendering engine.
    pub closed spec fn engine(&self) -> R {
        self.render_engine
    }

    /// Whether rendered output has its line endings normalized.
    pub closed spec fn fixes_newlines(&self) -> bool {
        self.fix_newlines
    }

    /// The registered specifications are exactly the backend-loaded ones.
    pub open spec fn consistent(&self) -> bool {
        self.stored() == self.engine().loaded()
    }

    /// Builds an empty registry around `render_engine`. Newline
    /// normalization defaults to the negation of the engine's declared
    /// newline validity.
    pub fn new(render_engine: R) -> (rte: Self)
        ensures
            rte.wf(),
            rte.registry() == Map::<Seq<char>, TemplateSpecView>::empty(),
            rte.stored() == Multiset::<TemplateSpecView>::empty(),
            rte.engine() == render_engine,
            rte.fixes_newlines() == !R::valid_newlines(),
    {
        let fix = !R::produces_valid_newlines();
        let rte = RenderTemplateEngine {
            fix_newlines: fix,
            render_engine,
            id2spec: Vec::new(),
        };
        proof {
            assert(rte.entries().len() == 0);
            assert(rte.registry() =~= Map::<Seq<char>, TemplateSpecView>::empty());
            let vals = rte.entries().map_values(|e: (Seq<char>, TemplateSpecView)| e.1);
            assert(vals.len() == 0);
            assert forall|a: TemplateSpecView| #[trigger] rte.stored().count(a) == 0 by {
                assert(!vals.contains(a));
            }
            assert(rte.stored() =~= Multiset::<TemplateSpecView>::empty());
        }
        rte
    }

    /// Switches newline normalization on or off, leaving everything else as
    /// it is.
    pub fn set_fix_newlines(&mut self, should_fix_newlines: bool)
        ensures
            final (self).fixes_newlines() == should_fix_newlines,
            final (self).registry() == old(self).registry(),
            final (self).stored() == old(self).stored(),
            final (self).engine() == old(self).engine(),
            final (self).wf() == old(self).wf(),
    {
        self.fix_newlines = should_fix_newlines;
    }

    /// Whether rendered output has its line endings normalized.
    pub fn does_fix_newlines(&self) -> (r: bool)
        ensures
            r == self.fixes_newlines(),
    {
        self.fix_newlines
    }

    /// The position of `id` in the entry list, if it is in use.
    fn index_of(&self, id: &str) -> (r: Option<usize>)
        ensures
            match r {
                Some(i) => i < self.entries().len() && self.entries()[i as int].0 == id@,
                None => !has_key(self.entries(), id@),
            },
    {
        let mut i: usize = 0;
        while i < self.id2spec.len()
            invariant
                i <= self.id2spec@.len(),
                forall|j: int| 0 <= j < i ==> (#[trigger] self.entries()[j]).0 != id@,
            decreases self.id2spec@.len() - i,
        {
            if str_eq(self.id2spec[i].0.as_str(), id) {
                return Some(i);
            }
            i = i + 1;
        }
        None
    }

    /// Looks `template_id` up in the registry: a pure accessor, with no
    /// backend interaction.
    pub fn lookup_spec(&self, template_id: &str) -> (r: Option<&TemplateSpec>)
        requires
            self.wf(),
        ensures
            match r {
                Some(spec) => self.registry().contains_key(template_id@) && spec@
                    == self.registry()[template_id@],
                None => !self.registry().contains_key(template_id@),
            },
    {
        match self.index_of(template_id) {
            Some(i) => {
                proof {
                    lemma_key_at(self.entries(), i as int);
                }
                Some(&self.id2spec[i].1)
            },
            None => None,
        }
    }

    /// The registered entries, as id and specification pairs.
    pub fn specs(&self) -> (r: &Vec<(String, TemplateSpec)>)
        ensures
            entries_view(r@) == self.entries(),
    {
        &self.id2spec
    }

    /// Mutable access to the entry list: replaces the specification at
    /// position `i` wholesale, keeping its id, and returns the one it held.
    /// The backend-loaded state is not touched: replacing a specification
    /// through this view bypasses the load/unload lifecycle.
    pub fn specs_mut(&mut self, i: usize, new_spec: TemplateSpec) -> (old_spec: TemplateSpec)
        requires
            old(self).wf(),
            i < old(self).entries().len(),
        ensures
            old_spec@ == old(self).entries()[i as int].1,
            final (self).entries() == old(self).entries().update(
                i as int,
                (old(self).entries()[i as int].0, new_spec@),
            ),
            final (self).wf(),
            final (self).engine() == old(self).engine(),
            final (self).fixes_newlines() == old(self).fixes_newlines(),
    {
        let ghost s0 = self.entries();
        let (id, old_spec) = self.id2spec.remove(i);
        let ghost idv = id@;
        self.id2spec.insert(i, (id, new_spec));
        proof {
            assert(idv == s0[i as int].0);
            assert(self.entries() =~= s0.update(i as int, (s0[i as int].0, new_spec@)));
            lemma_keys_unique_update(s0, i as int, new_spec@);
        }
        old_spec
    }

    /// Registers `spec` under `id`, loading it in the backend.
    ///
    /// A fresh id is loaded first and stored only on success. An id in use
    /// has its old specification unloaded first; then the new one is loaded,
    /// and on success replaces it, the old specification being returned.
    /// Whenever an error is returned, `id` is unused in the registry
    /// afterward, whether or not it was in use before, and the error carries
    /// the specification that failed to load together with the replaced one,
    /// if any.
    pub fn insert_spec(&mut self, id: String, spec: TemplateSpec) -> (r: Result<
        Option<TemplateSpec>,
        InsertionError<R::LoadingError>,
    >)
        requires
            old(self).wf(),
        ensures
            final (self).wf(),
            final (self).fixes_newlines() == old(self).fixes_newlines(),
            old(self).consistent() ==> final (self).consistent(),
            match r {
                Ok(old_spec) => {
                    &&& final (self).registry() == old(self).registry().insert(id@, spec@)
                    &&& match old_spec {
                        Some(o) => {
                            &&& old(self).registry().contains_key(id@)
                            &&& o@ == old(self).registry()[id@]
                            &&& final (self).stored() == old(self).stored().remove(o@).insert(
                                spec@,
                            )
                            &&& final (self).engine().loaded() == old(
                                self,
                            ).engine().loaded().remove(o@).insert(spec@)
                        },
                        None => {
                            &&& !old(self).registry().contains_key(id@)
                            &&& final (self).stored() == old(self).stored().insert(spec@)
                            &&& final (self).engine().loaded() == old(
                                self,
                            ).engine().loaded().insert(spec@)
                        },
                    }
                },
                Err(e) => {
                    &&& !final (self).registry().contains_key(id@)
                    &&& final (self).registry() == old(self).registry().remove(id@)
                    &&& e.failed_new_value@ == spec@
                    &&& match e.old_value {
                        Some(o) => {
                            &&& old(self).registry().contains_key(id@)
                            &&& o@ == old(self).registry()[id@]
                            &&& final (self).stored() == old(self).stored().remove(o@)
                            &&& final (self).engine().loaded() == old(
                                self,
                            ).engine().loaded().remove(o@)
                        },
                        None => {
                            &&& !old(self).registry().contains_key(id@)
                            &&& final (self).stored() == old(self).stored()
                            &&& final (self).engine().loaded() == old(self).engine().loaded()
                        },
                    }
                },
            },
    {
        let ghost s0 = self.entries();
        match self.index_of(&id) {
            Some(i) => {
                proof {
                    lemma_key_at(s0, i as int);
                    lemma_remove(s0, i as int);
                }
                let (old_id, old_spec) = self.id2spec.remove(i);
                self.render_engine.unload_templates(&old_spec);
                let ghost s1 = self.entries();
                proof {
                    assert(s1 =~= s0.remove(i as int));
                }
                match self.render_engine.load_templates(&spec) {
                    Ok(_) => {
                        proof {
                            lemma_push(s1, old_id@, spec@);
                        }
                        self.id2spec.push((old_id, spec));
                        proof {
                            assert(self.entries() =~= s1.push((old_id@, spec@)));
                            assert(self.registry() =~= entries_map(s0).insert(id@, spec@));
                        }
                        Ok(Some(old_spec))
                    },
                    Err(error) => {
                        Err(
                            InsertionError {
                                error,
                                failed_new_value: spec,
                                old_value: Some(old_spec),
                            },
                        )
                    },
                }
            },
            None => {
                match self.render_engine.load_templates(&spec) {
                    Ok(_) => {
                        proof {
                            lemma_push(s0, id@, spec@);
                        }
                        let ghost idv = id@;
                        self.id2spec.push((id, spec));
                        proof {
                            assert(self.entries() =~= s0.push((idv, spec@)));
                        }
                        Ok(None)
                    },
                    Err(error) => {
                        proof {
                            assert(entries_map(s0).remove(id@) =~= entries_map(s0));
                        }
                        Err(InsertionError { error, failed_new_value: spec, old_value: None })
                    },
                }
            },
        }
    }

    /// Removes and unloads the specification registered under `id`,
    /// returning it. An unused id is a no-op, and nothing is returned.
    pub fn remove_spec(&mut self, id: &str) -> (r: Option<TemplateSpec>)
        requires
            old(self).wf(),
        ensures
            final (self).wf(),
            final (self).fixes_newlines() == old(self).fixes_newlines(),
            old(self).consistent() ==> final (self).consistent(),
            final (self).registry() == old(self).registry().remove(id@),
            !final (self).registry().contains_key(id@),
            match r {
                Some(spec) => {
                    &&& old(self).registry().contains_key(id@)
                    &&& spec@ == old(self).registry()[id@]
                    &&& final (self).stored() == old(self).stored().remove(spec@)
                    &&& final (self).engine().loaded() == old(self).engine().loaded().remove(
                        spec@,
                    )
                },
                None => {
                    &&& !old(self).registry().contains_key(id@)
                    &&& final (self).stored() == old(self).stored()
                    &&& final (self).engine().loaded() == old(self).engine().loaded()
                },
            },
    {
        let ghost s0 = self.entries();
        match self.index_of(id) {
            Some(i) => {
                proof {
                    lemma_key_at(s0, i as int);
                    lemma_remove(s0, i as int);
                }
                let (_removed_id, spec) = self.id2spec.remove(i);
                self.render_engine.unload_templates(&spec);
                proof {
                    assert(self.entries() =~= s0.remove(i as int));
                }
                Some(spec)
            },
            None => {
                proof {
                    assert(entries_map(s0).remove(id@) =~= entries_map(s0));
                }
                None
            },
        }
    }

    /// Inserts every (id, specification) pair of `specs` in sequence,
    /// stopping at the first failure and propagating it. Pairs inserted
    /// before the failing one remain registered: the batch is not atomic.
    pub fn load_templates(&mut self, specs: Vec<(String, TemplateSpec)>) -> (r: Result<
        (),
        InsertionError<R::LoadingError>,
    >)
        requires
            old(self).wf(),
        ensures
            final (self).wf(),
            final (self).fixes_newlines() == old(self).fixes_newlines(),
            old(self).consistent() ==> final (self).consistent(),
            match r {
                Ok(_) => final (self).registry() == insert_all(
                    old(self).registry(),
                    entries_view(specs@),
                ),
                Err(e) => exists|k: int|
                    #[trigger] batch_stopped_at(
                        old(self).registry(),
                        entries_view(specs@),
                        final (self).registry(),
                        e.failed_new_value@,
                        k,
                    ),
            },
    {
        let ghost all = entries_view(specs@);
        let mut remaining = specs;
        proof {
            assert(entries_view(remaining@) =~= all.skip(0));
            assert(all.take(0) =~= Seq::<(Seq<char>, TemplateSpecView)>::empty());
        }
        while remaining.len() > 0
            invariant
                self.wf(),
                self.fixes_newlines() == old(self).fixes_newlines(),
                old(self).consistent() ==> self.consistent(),
                all == entries_view(specs@),
                remaining@.len() <= all.len(),
                entries_view(remaining@) == all.skip(all.len() - remaining@.len()),
                self.registry() == insert_all(
                    old(self).registry(),
                    all.take(all.len() - remaining@.len()),
                ),
            decreases remaining@.len(),
        {
            let ghost done = all.len() - remaining@.len();
            let ghost pre = remaining@;
            let (id, spec) = remaining.remove(0);
            proof {
                assert(entries_view(pre)[0] == (id@, spec@));
                assert(all.skip(done)[0] == all[done]);
                assert(entries_view(remaining@) =~= entries_view(pre).remove(0));
                assert(entries_view(pre).remove(0) =~= all.skip(done + 1));
            }
            match self.insert_spec(id, spec) {
                Ok(_) => {
                    proof {
                        assert(all.take(done + 1).drop_last() =~= all.take(done));
                        assert(all.take(done + 1).last() == all[done]);
                        assert(insert_all(old(self).registry(), all.take(done + 1))
                            == insert_all(old(self).registry(), all.take(done)).insert(
                            all[done].0,
                            all[done].1,
                        ));
                    }
                },
                Err(e) => {
                    proof {
                        assert(batch_stopped_at(
                            old(self).registry(),
                            all,
                            self.registry(),
                            e.failed_new_value@,
                            done,
                        ));
                    }
                    return Err(e);
                },
            }
        }
        proof {
            assert(all.take(all.len() - remaining@.len()) =~= all);
        }
        Ok(())
    }

    /// Renders the specification registered under `template_id` against
    /// `data`: one body part per body variant, in the specification's
    /// defined order, each rendered against its local embeddings first and
    /// the shared embeddings second, line endings normalized exactly when
    /// the registry's newline flag is set. An unregistered id fails with the
    /// engine's own "unknown template id" error; a failed render aborts the
    /// whole operation, and no partial result is returned. Content ids are
    /// allocated through `ctx` alone; neither the registry nor the backend
    /// state is mutated.
    #[verifier::rlimit(50)]
    pub fn use_template<C, D>(&self, template_id: &str, data: &D, ctx: &C) -> (r: Result<
        MailParts,
        R::RenderError,
    >) where C: Context, R: RenderEngine<D>
        requires
            self.wf(),
        ensures
            !self.registry().contains_key(template_id@) ==> r == Err::<MailParts, _>(
                R::unknown_template_id_spec(template_id@),
            ),
            r is Ok ==> self.registry().contains_key(template_id@),
            r is Ok ==> parts_match(r->Ok_0, self.registry()[template_id@]),
            r is Ok ==> rendered(
                self.engine(),
                self.registry()[template_id@],
                *data,
                self.fixes_newlines(),
                r->Ok_0,
            ),
            r is Err && self.registry().contains_key(template_id@)
                ==> render_failed(
                self.engine(),
                self.registry()[template_id@],
                *data,
                r->Err_0,
            ),
    {
        let spec = match self.lookup_spec(template_id) {
            Some(spec) => spec,
            None => {
                return Err(R::unknown_template_id_error(template_id));
            },
        };
        let ghost tspec = self.registry()[template_id@];
        let shared = bind_embeddings(spec.embeddings(), ctx);
        let subs = spec.sub_specs();
        let mut bodies: Vec<BodyPart> = Vec::new();
        let mut i: usize = 0;
        while i < subs.len()
            invariant
                i <= subs@.len(),
                self.wf(),
                self.registry().contains_key(template_id@),
                tspec == self.registry()[template_id@],
                subs@.map_values(|s: SubSpec| s@) == tspec.sub_specs,
                bound_scope(
                    scope_view(shared@),
                    tspec.embeddings,
                ),
                bodies@.len() == i,
                forall|j: int|
                    0 <= j < i ==> body_part_matches(
                        #[trigger] bodies@[j],
                        tspec.sub_specs[j],
                    ),
                bodies_rendered(
                    self.engine(),
                    tspec,
                    *data,
                    self.fixes_newlines(),
                    scope_view(shared@),
                    bodies@,
                    i as int,
                ),
            decreases subs@.len() - i,
        {
            proof {
                assert(subs@[i as int]@ == tspec.sub_specs[i as int]);
            }
            let local = bind_embeddings(subs[i].embeddings(), ctx);
            match render_body_part(
                &self.render_engine,
                &subs[i],
                data,
                local,
                &shared,
                self.fix_newlines,
            ) {
                Ok(bp) => {
                    proof {
                        let sv = tspec.sub_specs[i as int];
                        assert(bp.embeddings@ == local@.map_values(
                            |p: (String, crate::mail_parts::EmbeddedWithCId)| p.1,
                        ));
                        assert forall|k: int|
                            0 <= k < bp.embeddings@.len() implies (
                        #[trigger] bp.embeddings@[k])@.resource == sv.embeddings[k].1
                            && bp.embeddings@[k]@.inline by {
                            assert(bp.embeddings@[k] == local@[k].1);
                            assert(scope_view(local@)[k] == (
                                local@[k].0@,
                                local@[k].1@,
                            ));
                        }
                        assert(body_part_matches(bp, sv));
                        assert(body_rendered(
                            self.engine(),
                            tspec,
                            *data,
                            self.fixes_newlines(),
                            i as int,
                            scope_view(local@),
                            scope_view(shared@),
                            bp,
                        ));
                    }
                    let ghost pre_bodies = bodies@;
                    bodies.push(bp);
                    proof {
                        lemma_bodies_rendered_push(
                            self.engine(),
                            tspec,
                            *data,
                            self.fixes_newlines(),
                            scope_view(shared@),
                            pre_bodies,
                            bp,
                            scope_view(local@),
                        );
                        assert(bodies@ == pre_bodies.push(bp));
                    }
                },
                Err(e) => {
                    proof {
                        assert(render_aborted(
                            self.engine(),
                            self.registry()[template_id@],
                            *data,
                            e,
                            i as int,
                            scope_view(local@),
                            scope_view(shared@),
                        ));
                        assert(render_failed(
                            self.engine(),
                            self.registry()[template_id@],
                            *data,
                            e,
                        ));
                    }
                    return Err(e);
                },
            }
            i = i + 1;
        }
        let ghost shared_pairs = shared@;
        let shared_values = embedded_values(shared);
        let attachment_list = spec.attachments();
        let attachments = bind_attachments(attachment_list, ctx);
        proof {
            assert forall|k: int|
                0 <= k < shared_values@.len() implies (
            #[trigger] shared_values@[k])@.resource == tspec.embeddings[k].1
                && shared_values@[k]@.inline by {
                assert(shared_values@[k] == shared_pairs[k].1);
                assert(scope_view(shared_pairs)[k] == (
                    shared_pairs[k].0@,
                    shared_pairs[k].1@,
                ));
            }
            assert forall|k: int|
                0 <= k < attachments@.len() implies (#[trigger] attachments@[k])@.resource
                == tspec.attachments[k] && !attachments@[k]@.inline by {
                assert(attachment_list@[k]@ == tspec.attachments[k]);
            }
        }
        let ghost final_bodies = bodies@;
        let parts = MailParts {
            alternative_bodies: bodies,
            shared_embeddings: shared_values,
            attachments,
        };
        proof {
            assert(parts_match(parts, tspec));
            assert forall|k: int|
                0 <= k < scope_view(shared_pairs).len() implies (
            #[trigger] parts.shared_embeddings@[k])@ == scope_view(
                shared_pairs,
            )[k].1 by {
                assert(parts.shared_embeddings@[k] == shared_pairs[k].1);
            }
            assert(parts.alternative_bodies@ == final_bodies);
            assert(bodies_rendered(
                self.engine(),
                tspec,
                *data,
                self.fixes_newlines(),
                scope_view(shared_pairs),
                parts.alternative_bodies@,
                tspec.sub_specs.len() as int,
            ));
            assert(rendered_with_scopes(
                self.engine(),
                self.registry()[template_id@],
                *data,
                self.fixes_newlines(),
                parts,
                scope_view(shared_pairs),
            ));
            assert(rendered(
                self.engine(),
                self.registry()[template_id@],
                *data,
                self.fixes_newlines(),
                parts,
            ));
        }
        Ok(parts)
    }
}

/// Whether a batch insertion into the mapping `m0` stopped at position `k`
/// of the pair list `all`, leaving the mapping `m`: the pairs before `k`
/// were inserted in order, the pair at `k` is the one that failed to load,
/// and its id is unused afterward.
pub open spec fn batch_stopped_at(
    m0: Map<Seq<char>, TemplateSpecView>,
    all: Seq<(Seq<char>, TemplateSpecView)>,
    m: Map<Seq<char>, TemplateSpecView>,
    failed: TemplateSpecView,
    k: int,
) -> bool {
    &&& 0 <= k < all.len()
    &&& failed == all[k].1
    &&& m == insert_all(m0, all.take(k)).remove(all[k].0)
    &&& !m.contains_key(all[k].0)
}

/// The mapping after inserting every pair of `s` into `m`, in order.
pub open spec fn insert_all(
    m: Map<Seq<char>, TemplateSpecView>,
    s: Seq<(Seq<char>, TemplateSpecView)>,
) -> Map<Seq<char>, TemplateSpecView>
    decreases s.len(),
{
    if s.len() == 0 {
        m
    } else {
        insert_all(m, s.drop_last()).insert(s.last().0, s.last().1)
    }
}

} // verus!
