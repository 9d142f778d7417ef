//! Behavioral tests of the registry lifecycle and the rendering pipeline,
//! driven by a recording stub backend and a counting content-id context.

use std::cell::RefCell;
use std::rc::Rc;

use render_template_engine::engine::{AdditionalCIds, Context, RenderEngine, RenderEngineBase};
use render_template_engine::newlines::fix_newlines;
use render_template_engine::resource::Resource;
use render_template_engine::rte::RenderTemplateEngine;
use render_template_engine::template_spec::{SubSpec, TemplateSpec};

#[derive(Debug, PartialEq, Clone)]
enum StubRenderError {
    UnknownTemplateId(String),
    RenderFailed(String),
}

/// A backend stub that records every load/unload call. It declares valid
/// newlines, fails to load any spec whose first template name contains
/// "badload", and fails to render any variant whose template name contains
/// "renderfail". Rendered output is "template|data|logo-cid".
struct StubEngine {
    calls: Rc<RefCell<Vec<String>>>,
}

impl StubEngine {
    fn new() -> StubEngine {
        StubEngine { calls: Rc::new(RefCell::new(Vec::new())) }
    }

    fn with_log(calls: Rc<RefCell<Vec<String>>>) -> StubEngine {
        StubEngine { calls }
    }
}

fn spec_name(spec: &TemplateSpec) -> String {
    spec.sub_specs()[0].template().clone()
}

impl RenderEngineBase for StubEngine {
    type LoadingError = String;
    type RenderError = StubRenderError;

    fn produces_valid_newlines() -> bool {
        true
    }

    fn unknown_template_id_error(id: &str) -> StubRenderError {
        StubRenderError::UnknownTemplateId(id.to_string())
    }

    fn load_templates(&mut self, spec: &TemplateSpec) -> Result<(), String> {
        let name = spec_name(spec);
        if name.contains("badload") {
            self.calls.borrow_mut().push(format!("loadfail:{}", name));
            Err(format!("cannot load {}", name))
        } else {
            self.calls.borrow_mut().push(format!("load:{}", name));
            Ok(())
        }
    }

    fn unload_templates(&mut self, spec: &TemplateSpec) {
        let name = spec_name(spec);
        self.calls.borrow_mut().push(format!("unload:{}", name));
    }
}

impl RenderEngine<String> for StubEngine {
    fn render(
        &self,
        sub: &SubSpec,
        data: &String,
        cids: &AdditionalCIds<'_>,
    ) -> Result<Vec<u8>, StubRenderError> {
        let template = sub.template().clone();
        if template.contains("renderfail") {
            return Err(StubRenderError::RenderFailed(template));
        }
        let logo = match cids.get("logo") {
            Some(cid) => cid.clone(),
            None => String::new(),
        };
        Ok(format!("{}|{}|{}", template, data, logo).into_bytes())
    }
}

/// A backend whose output does not carry valid newlines: rendering yields
/// bytes with bare LF and CR breaks.
struct RawNewlineEngine;

impl RenderEngineBase for RawNewlineEngine {
    type LoadingError = String;
    type RenderError = StubRenderError;

    fn produces_valid_newlines() -> bool {
        false
    }

    fn unknown_template_id_error(id: &str) -> StubRenderError {
        StubRenderError::UnknownTemplateId(id.to_string())
    }

    fn load_templates(&mut self, _spec: &TemplateSpec) -> Result<(), String> {
        Ok(())
    }

    fn unload_templates(&mut self, _spec: &TemplateSpec) {}
}

impl RenderEngine<String> for RawNewlineEngine {
    fn render(
        &self,
        _sub: &SubSpec,
        _data: &String,
        _cids: &AdditionalCIds<'_>,
    ) -> Result<Vec<u8>, StubRenderError> {
        Ok(b"a\nb\rc".to_vec())
    }
}

struct StubCtx {
    counter: RefCell<u64>,
}

impl StubCtx {
    fn new() -> StubCtx {
        StubCtx { counter: RefCell::new(0) }
    }
}

impl Context for StubCtx {
    fn generate_content_id(&self) -> String {
        let mut c = self.counter.borrow_mut();
        let id = format!("cid{}", *c);
        *c += 1;
        id
    }
}

fn resource(media_type: &str, data: &str) -> Resource {
    Resource::new(media_type.to_string(), data.as_bytes().to_vec())
}

fn variant(media_type: &str, template: &str) -> SubSpec {
    SubSpec::new(media_type.to_string(), template.to_string(), Vec::new())
}

fn simple_spec(template: &str) -> TemplateSpec {
    TemplateSpec::new(vec![variant("text/plain", template)], Vec::new(), Vec::new())
}

#[test]
fn insert_fresh_id_loads_and_is_found() {
    let mut rte = RenderTemplateEngine::new(StubEngine::new());
    let previous = rte.insert_spec("welcome".to_string(), simple_spec("a")).unwrap();
    assert!(previous.is_none());
    let found = rte.lookup_spec("welcome").expect("inserted spec must be found");
    assert_eq!(spec_name(found), "a");
}

#[test]
fn replace_returns_old_and_lookup_finds_new() {
    let mut rte = RenderTemplateEngine::new(StubEngine::new());
    rte.insert_spec("welcome".to_string(), simple_spec("a")).unwrap();
    let previous = rte.insert_spec("welcome".to_string(), simple_spec("b")).unwrap();
    assert_eq!(spec_name(&previous.expect("old value owed on replacement")), "a");
    assert_eq!(spec_name(rte.lookup_spec("welcome").unwrap()), "b");
}

#[test]
fn failed_fresh_insert_leaves_id_unused() {
    let mut rte = RenderTemplateEngine::new(StubEngine::new());
    let err = rte.insert_spec("welcome".to_string(), simple_spec("badload-a")).unwrap_err();
    assert_eq!(spec_name(&err.failed_new_value), "badload-a");
    assert!(err.old_value.is_none());
    assert!(rte.lookup_spec("welcome").is_none());
}

#[test]
fn failed_replacement_leaves_id_unused_and_carries_both_values() {
    let mut rte = RenderTemplateEngine::new(StubEngine::new());
    rte.insert_spec("welcome".to_string(), simple_spec("a")).unwrap();
    let err = rte.insert_spec("welcome".to_string(), simple_spec("badload-b")).unwrap_err();
    assert_eq!(spec_name(&err.failed_new_value), "badload-b");
    assert_eq!(spec_name(err.old_value.as_ref().expect("old value owed")), "a");
    assert!(rte.lookup_spec("welcome").is_none(), "a failed replacement is not reverted");
}

#[test]
fn remove_unused_id_is_noop_and_used_id_is_unloaded() {
    let mut rte = RenderTemplateEngine::new(StubEngine::new());
    assert!(rte.remove_spec("nothing").is_none());
    rte.insert_spec("welcome".to_string(), simple_spec("a")).unwrap();
    let removed = rte.remove_spec("welcome").expect("used id must be returned");
    assert_eq!(spec_name(&removed), "a");
    assert!(rte.lookup_spec("welcome").is_none());
    let calls = rte.specs();
    assert!(calls.is_empty());
}

#[test]
fn render_unknown_id_fails_with_unknown_template_id_error() {
    let rte = RenderTemplateEngine::new(StubEngine::new());
    let ctx = StubCtx::new();
    let err = rte.use_template("ghost", &"d".to_string(), &ctx).unwrap_err();
    assert_eq!(err, StubRenderError::UnknownTemplateId("ghost".to_string()));
}

#[test]
fn render_two_variants_in_spec_order() {
    let mut rte = RenderTemplateEngine::new(StubEngine::new());
    let spec = TemplateSpec::new(
        vec![variant("text/plain", "plain-t"), variant("text/html", "html-t")],
        Vec::new(),
        Vec::new(),
    );
    rte.insert_spec("welcome".to_string(), spec).unwrap();
    let ctx = StubCtx::new();
    let parts = rte.use_template("welcome", &"d".to_string(), &ctx).unwrap();
    assert_eq!(parts.alternative_bodies.len(), 2);
    assert_eq!(parts.alternative_bodies[0].resource.media_type().as_str(), "text/plain");
    assert_eq!(parts.alternative_bodies[1].resource.media_type().as_str(), "text/html");
    assert!(parts.alternative_bodies[0].resource.data().starts_with(b"plain-t|"));
    assert!(parts.alternative_bodies[1].resource.data().starts_with(b"html-t|"));
}

#[test]
fn local_embedding_shadows_shared_one() {
    let mut rte = RenderTemplateEngine::new(StubEngine::new());
    let sub = SubSpec::new(
        "text/plain".to_string(),
        "t".to_string(),
        vec![("logo".to_string(), resource("image/png", "local-logo"))],
    );
    let spec = TemplateSpec::new(
        vec![sub],
        vec![("logo".to_string(), resource("image/png", "shared-logo"))],
        Vec::new(),
    );
    rte.insert_spec("welcome".to_string(), spec).unwrap();
    let ctx = StubCtx::new();
    let parts = rte.use_template("welcome", &"d".to_string(), &ctx).unwrap();
    // The shared scope is bound first (cid0), the body's local scope second
    // (cid1): the render resolves "logo" to the local binding.
    assert_eq!(parts.alternative_bodies[0].resource.data().as_slice(), b"t|d|cid1");
    assert_eq!(parts.alternative_bodies[0].embeddings.len(), 1);
    assert_eq!(parts.alternative_bodies[0].embeddings[0].content_id().as_str(), "cid1");
    assert_eq!(parts.alternative_bodies[0].embeddings[0].resource().data().as_slice(), b"local-logo");
    assert_eq!(parts.shared_embeddings.len(), 1);
    assert_eq!(parts.shared_embeddings[0].content_id().as_str(), "cid0");
    assert_eq!(parts.shared_embeddings[0].resource().data().as_slice(), b"shared-logo");
}

#[test]
fn newline_normalization_follows_the_flag_alone() {
    // A backend without valid newlines: normalization defaults to on.
    let mut rte = RenderTemplateEngine::new(RawNewlineEngine);
    assert!(rte.does_fix_newlines());
    rte.insert_spec("welcome".to_string(), simple_spec("t")).unwrap();
    let ctx = StubCtx::new();
    let parts = rte.use_template("welcome", &"d".to_string(), &ctx).unwrap();
    assert_eq!(parts.alternative_bodies[0].resource.data().as_slice(), b"a\r\nb\r\nc");
    // Switching the flag off leaves the rendered bytes untouched.
    rte.set_fix_newlines(false);
    let parts = rte.use_template("welcome", &"d".to_string(), &ctx).unwrap();
    assert_eq!(parts.alternative_bodies[0].resource.data().as_slice(), b"a\nb\rc");

    // A backend with valid newlines: normalization defaults to off, and
    // switching it on normalizes regardless of the backend's declaration.
    let mut rte = RenderTemplateEngine::new(StubEngine::new());
    assert!(!rte.does_fix_newlines());
    rte.insert_spec("welcome".to_string(), simple_spec("x\ny")).unwrap();
    let parts = rte.use_template("welcome", &"d".to_string(), &ctx).unwrap();
    assert_eq!(parts.alternative_bodies[0].resource.data().as_slice(), b"x\ny|d|");
    rte.set_fix_newlines(true);
    let parts = rte.use_template("welcome", &"d".to_string(), &ctx).unwrap();
    assert_eq!(parts.alternative_bodies[0].resource.data().as_slice(), b"x\r\ny|d|");
}

#[test]
fn fix_newlines_rewrites_every_break_to_crlf() {
    assert_eq!(fix_newlines(b"x\ry\nz\r\nw".to_vec()), b"x\r\ny\r\nz\r\nw".to_vec());
    assert_eq!(fix_newlines(Vec::new()), Vec::<u8>::new());
    assert_eq!(fix_newlines(b"\n".to_vec()), b"\r\n".to_vec());
    assert_eq!(fix_newlines(b"\r".to_vec()), b"\r\n".to_vec());
    assert_eq!(fix_newlines(b"\r\n".to_vec()), b"\r\n".to_vec());
    assert_eq!(fix_newlines(b"plain".to_vec()), b"plain".to_vec());
}

#[test]
fn render_failure_aborts_without_partial_result() {
    let mut rte = RenderTemplateEngine::new(StubEngine::new());
    let spec = TemplateSpec::new(
        vec![variant("text/plain", "ok-t"), variant("text/html", "renderfail-t")],
        Vec::new(),
        Vec::new(),
    );
    rte.insert_spec("welcome".to_string(), spec).unwrap();
    let ctx = StubCtx::new();
    let err = rte.use_template("welcome", &"d".to_string(), &ctx).unwrap_err();
    assert_eq!(err, StubRenderError::RenderFailed("renderfail-t".to_string()));
}

#[test]
fn attachments_are_bound_with_attachment_disposition() {
    let mut rte = RenderTemplateEngine::new(StubEngine::new());
    let spec = TemplateSpec::new(
        vec![variant("text/plain", "t")],
        Vec::new(),
        vec![resource("application/pdf", "att-one"), resource("image/png", "att-two")],
    );
    rte.insert_spec("welcome".to_string(), spec).unwrap();
    let ctx = StubCtx::new();
    let parts = rte.use_template("welcome", &"d".to_string(), &ctx).unwrap();
    assert_eq!(parts.attachments.len(), 2);
    assert_eq!(parts.attachments[0].resource().data().as_slice(), b"att-one");
    assert_eq!(parts.attachments[1].resource().data().as_slice(), b"att-two");
    assert!(!parts.attachments[0].is_inline());
    assert!(!parts.attachments[1].is_inline());
}

#[test]
fn backend_sees_one_load_then_unload_load_per_replacement() {
    let log = Rc::new(RefCell::new(Vec::new()));
    let mut rte = RenderTemplateEngine::new(StubEngine::with_log(log.clone()));
    rte.insert_spec("welcome".to_string(), simple_spec("a")).unwrap();
    rte.insert_spec("welcome".to_string(), simple_spec("b")).unwrap();
    let err = rte.insert_spec("welcome".to_string(), simple_spec("badload-c"));
    assert!(err.is_err());
    assert!(rte.lookup_spec("welcome").is_none());
    assert_eq!(
        *log.borrow(),
        vec![
            "load:a".to_string(),
            "unload:a".to_string(),
            "load:b".to_string(),
            "unload:b".to_string(),
            "loadfail:badload-c".to_string(),
        ],
    );
}

#[test]
fn batch_load_stops_at_first_failure_keeping_earlier_inserts() {
    let mut rte = RenderTemplateEngine::new(StubEngine::new());
    let batch = vec![
        ("a".to_string(), simple_spec("a")),
        ("b".to_string(), simple_spec("b")),
        ("c".to_string(), simple_spec("badload-c")),
        ("d".to_string(), simple_spec("d")),
    ];
    let err = rte.load_templates(batch).unwrap_err();
    assert_eq!(spec_name(&err.failed_new_value), "badload-c");
    assert!(rte.lookup_spec("a").is_some());
    assert!(rte.lookup_spec("b").is_some());
    assert!(rte.lookup_spec("c").is_none());
    assert!(rte.lookup_spec("d").is_none(), "the batch stops at the first failure");
}

#[test]
fn specs_and_specs_mut_expose_the_entries() {
    let mut rte = RenderTemplateEngine::new(StubEngine::new());
    rte.insert_spec("one".to_string(), simple_spec("a")).unwrap();
    rte.insert_spec("two".to_string(), simple_spec("b")).unwrap();
    assert_eq!(rte.specs().len(), 2);
    let position = rte.specs().iter().position(|(id, _)| id == "one").unwrap();
    let old = rte.specs_mut(position, simple_spec("a2"));
    assert_eq!(spec_name(&old), "a");
    assert_eq!(spec_name(rte.lookup_spec("one").unwrap()), "a2");
    assert_eq!(spec_name(rte.lookup_spec("two").unwrap()), "b");
}
