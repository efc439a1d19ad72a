//! The library's cross-cutting guarantees, stated and proved once.
//!
//! The per-call guarantees — when a stage succeeds, what exactly it wrote,
//! and that a failing stage leaves the document untouched — are the
//! `ensures` of `ParserFunction::execute` and `PublishFunction::execute`.
//! What they only imply is proved here in so many words.

use crate::document::DocView;
use crate::parser::{
    degraded_tree, parse_failure_description, parse_result_tree, parse_succeeds,
};
use crate::path::{lemma_split_dots_plain, split_dots};
use crate::publish::{
    cfg_kind, cfg_subject, fan_xml_list, is_fanout, publish_applies, publish_out_name, xml_spec,
    PublishConfig,
};
use crate::text::{contains_seq, lemma_contains_extend, lemma_contains_self};
use crate::tree::{
    child, graft, is_index_seg, lemma_obj_set_idem, lemma_obj_set_other, lemma_obj_set_same,
    obj_lookup, obj_set, resolve, seg_nat, Tree,
};
use vstd::prelude::*;

verus! {

/// A value written into a document tree at a path is exactly what
/// resolving that path afterwards finds.
pub proof fn lemma_resolve_graft(t: Tree, path: Seq<Seq<char>>, v: Tree)
    ensures
        resolve(graft(t, path, v), path) == Some(v),
    decreases path.len(),
{
    if path.len() == 0 {
    } else {
        let seg = path[0];
        match t {
            Tree::List(xs) => {
                if is_index_seg(seg) && seg_nat(seg) < xs.len() {
                    lemma_resolve_graft(xs[seg_nat(seg) as int], path.skip(1), v);
                } else {
                    lemma_obj_set_same(Seq::empty(), seg, graft(Tree::Null, path.skip(1), v));
                    lemma_resolve_graft(Tree::Null, path.skip(1), v);
                }
            },
            Tree::Obj(es) => {
                let base = match obj_lookup(es, seg) {
                    Some(c) => c,
                    None => Tree::Null,
                };
                lemma_obj_set_same(es, seg, graft(base, path.skip(1), v));
                lemma_resolve_graft(base, path.skip(1), v);
            },
            _ => {
                lemma_obj_set_same(Seq::empty(), seg, graft(Tree::Null, path.skip(1), v));
                lemma_resolve_graft(Tree::Null, path.skip(1), v);
            },
        }
    }
}

/// A stage writes only through its declared output path: a write under one
/// top-level key leaves the value under every other top-level key alone.
pub proof fn lemma_graft_frame(t: Tree, path: Seq<Seq<char>>, v: Tree, other: Seq<char>)
    requires
        t is Obj,
        path.len() >= 1,
        path[0] != other,
    ensures
        child(graft(t, path, v), other) == child(t, other),
{
    let es = t->Obj_0;
    let base = match obj_lookup(es, path[0]) {
        Some(c) => c,
        None => Tree::Null,
    };
    lemma_obj_set_other(es, path[0], graft(base, path.skip(1), v), other);
}

/// An unsupported format descriptor is named by the very error text that
/// rejects it: both stages build their message as a fixed prefix followed
/// by the offending key, so the text contains the key.
pub proof fn lemma_unsupported_error_names_key(f: Seq<char>)
    ensures
        contains_seq("Unsupported format: "@ + f, f),
        contains_seq("Unsupported output format: "@ + f, f),
{
    lemma_contains_self(f);
    lemma_contains_extend("Unsupported format: "@, f, f);
    lemma_contains_extend("Unsupported output format: "@, f, f);
}

/// A text that is not parsed — because the stage's ASCII guard held it
/// back, or because the wire-format parser refused it — still yields a
/// structured result: the tree the parse stage writes is an object holding
/// the failure description, the raw input, and the format token, each
/// under its own key.
pub proof fn lemma_parse_failure_is_structured(text: Seq<char>)
    requires
        !parse_succeeds(text),
    ensures
        parse_result_tree(text) == degraded_tree(parse_failure_description(text), text),
        parse_result_tree(text) is Obj,
        obj_lookup(parse_result_tree(text)->Obj_0, "library_error"@) == Some(
            Tree::Text(parse_failure_description(text)),
        ),
        obj_lookup(parse_result_tree(text)->Obj_0, "raw_payload"@) == Some(Tree::Text(text)),
        obj_lookup(parse_result_tree(text)->Obj_0, "format"@) == Some(Tree::Text("SwiftMT"@)),
{
    reveal_strlit("library_error");
    reveal_strlit("raw_payload");
    reveal_strlit("format");
    let es = degraded_tree(parse_failure_description(text), text)->Obj_0;
    reveal_with_fuel(obj_lookup, 4);
    assert(es[0] == ("library_error"@, Tree::Text(parse_failure_description(text))));
    assert(es.skip(1)[0] == ("raw_payload"@, Tree::Text(text)));
    assert(es.skip(1).skip(1)[0] == ("format"@, Tree::Text("SwiftMT"@)));
    assert("library_error"@.len() == 13);
    assert("raw_payload"@.len() == 11);
    assert("format"@.len() == 6);
    assert("raw_payload"@ != "library_error"@);
    assert("format"@ != "library_error"@ && "format"@ != "raw_payload"@);
}

/// What the publish stage writes on success, as one value: the rendered
/// text, or the ordered list of rendered texts of a fan-out batch.
pub open spec fn publish_output(cfg: PublishConfig, d: DocView) -> Option<Tree> {
    if publish_applies(cfg, d) {
        Some(
            if is_fanout(cfg_kind(cfg)->0, cfg_subject(cfg, d)->0) {
                fan_xml_list(cfg_kind(cfg)->0, cfg_subject(cfg, d)->0->List_0)
            } else {
                Tree::Text(xml_spec(cfg_kind(cfg)->0, cfg_subject(cfg, d)->0)->0)
            },
        )
    } else {
        None
    }
}

/// Publishing is a function of the mapped input value alone: two
/// documents whose input field holds the same value publish the same way
/// — the same outcome, and character-for-character the same XML.  In
/// particular a second call on an unchanged document repeats the first.
pub proof fn lemma_publish_deterministic(cfg: PublishConfig, d1: DocView, d2: DocView)
    requires
        cfg.input_field_name is Some,
        resolve(d1.data, split_dots(cfg.input_field_name->0@)) == resolve(
            d2.data,
            split_dots(cfg.input_field_name->0@),
        ),
    ensures
        cfg_subject(cfg, d1) == cfg_subject(cfg, d2),
        publish_applies(cfg, d1) == publish_applies(cfg, d2),
        publish_output(cfg, d1) == publish_output(cfg, d2),
{
}

/// The field the publish stage writes for the outcome this document gives.
pub open spec fn publish_out_field(cfg: PublishConfig, d: DocView) -> Seq<char> {
    publish_out_name(cfg, is_fanout(cfg_kind(cfg)->0, cfg_subject(cfg, d)->0))
}

/// Resolving one single segment is one child step.
proof fn lemma_resolve_single(t: Tree, k: Seq<char>)
    ensures
        resolve(t, seq![k]) == child(t, k),
{
    reveal_with_fuel(resolve, 2);
    assert(seq![k].skip(1) =~= Seq::<Seq<char>>::empty());
    match child(t, k) {
        Some(c) => {
            assert(resolve(t, seq![k]) == resolve(c, seq![k].skip(1)));
        },
        None => {},
    }
}

/// Grafting at one single top-level key of an object replaces that entry.
proof fn lemma_graft_single(es: Seq<(Seq<char>, Tree)>, k: Seq<char>, v: Tree)
    ensures
        graft(Tree::Obj(es), seq![k], v) == Tree::Obj(obj_set(es, k, v)),
{
    reveal_with_fuel(graft, 2);
    assert(seq![k].skip(1) =~= Seq::<Seq<char>>::empty());
}

/// Publishing a second time on the unchanged input repeats the first call
/// exactly: on a document whose `data` is an object and whose input and
/// output fields are distinct top-level names (no dots, so neither path
/// can alias the other), a successful publish leaves a document on which
/// the same publish still applies, yields the very same output — for a
/// single value, character-for-character the same XML — and writes a value
/// that is already there, so the second call changes nothing.
pub proof fn lemma_publish_repeat(cfg: PublishConfig, d0: DocView, d1: DocView)
    requires
        publish_applies(cfg, d0),
        d0.data is Obj,
        forall|m: int|
            0 <= m < cfg.input_field_name->0@.len() ==> #[trigger] cfg.input_field_name->0@[m]
                != '.',
        forall|m: int|
            0 <= m < publish_out_field(cfg, d0).len() ==> #[trigger] publish_out_field(
                cfg,
                d0,
            )[m] != '.',
        publish_out_field(cfg, d0) != cfg.input_field_name->0@,
        d1.data == graft(
            d0.data,
            split_dots(publish_out_field(cfg, d0)),
            publish_output(cfg, d0)->0,
        ),
    ensures
        publish_applies(cfg, d1),
        publish_output(cfg, d1) == publish_output(cfg, d0),
        publish_out_field(cfg, d1) == publish_out_field(cfg, d0),
        graft(
            d1.data,
            split_dots(publish_out_field(cfg, d1)),
            publish_output(cfg, d1)->0,
        ) == d1.data,
{
    let iname = cfg.input_field_name->0@;
    let oname = publish_out_field(cfg, d0);
    let outv = publish_output(cfg, d0)->0;
    lemma_split_dots_plain(iname);
    lemma_split_dots_plain(oname);
    let es0 = d0.data->Obj_0;
    lemma_graft_single(es0, oname, outv);
    assert(d1.data == Tree::Obj(obj_set(es0, oname, outv)));
    lemma_obj_set_other(es0, oname, outv, iname);
    lemma_resolve_single(d0.data, iname);
    lemma_resolve_single(d1.data, iname);
    assert(resolve(d1.data, split_dots(iname)) == resolve(d0.data, split_dots(iname)));
    lemma_publish_deterministic(cfg, d0, d1);
    lemma_graft_single(obj_set(es0, oname, outv), oname, outv);
    lemma_obj_set_idem(es0, oname, outv);
}

} // verus!
