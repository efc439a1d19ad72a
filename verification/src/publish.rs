//! The publish stage: mapped data in, validated ISO 20022 XML out.
//!
//! A format descriptor selects a row of a closed dispatch table.  Each row
//! names the sub-field expected inside the mapped structure and the target
//! schema; the stage extracts that sub-field, validates it by
//! reconstructing the strongly typed schema value, renders the value to
//! XML, and writes the text into the document.  When the sub-field holds a
//! list, every element is validated and rendered independently: all
//! succeed and the texts are written in order, or none is written and one
//! combined error lists every failing index.

use crate::document::{Change, DocView, Document};
use crate::error::StageError;
use crate::path::{split_dots, FieldPath};
use crate::text::{
    contains_seq, dec_str, lemma_contains_extend, lemma_occurs_extend_right,
    lemma_occurs_in_suffix, occurs_at, usize_to_string,
};
use crate::tree::{
    child, graft, items_model, lemma_items_model, node_model, resolve, Node, Tree,
};
use vstd::prelude::*;

verus! {

/// A row of the dispatch table: one target schema variant.
#[derive(Clone, Copy, PartialEq, Eq, Structural)]
pub enum SchemaKind {
    /// The business application header.
    Mt103Header,
    /// The customer credit transfer document (pacs.008).
    Pacs008,
    /// The financial institution credit transfer document (pacs.009).
    Pacs009,
    /// The payment cancellation request document (camt.056).
    Camt056,
    /// The notification to receive document (camt.057).
    Camt057,
    /// The resolution of investigation document (camt.029).
    Camt029,
}

/// Whether deserializing this tree into the header schema succeeds.
pub uninterp spec fn header_accepts(t: Tree) -> bool;

/// The XML text of the header deserialized from this tree, if rendering
/// succeeds.
pub uninterp spec fn header_xml(t: Tree) -> Option<Seq<char>>;

/// Whether deserializing this tree into the pacs.008 schema succeeds.
pub uninterp spec fn pacs008_accepts(t: Tree) -> bool;

/// The XML text of the pacs.008 value deserialized from this tree.
pub uninterp spec fn pacs008_xml(t: Tree) -> Option<Seq<char>>;

/// Whether deserializing this tree into the pacs.009 schema succeeds.
pub uninterp spec fn pacs009_accepts(t: Tree) -> bool;

/// The XML text of the pacs.009 value deserialized from this tree.
pub uninterp spec fn pacs009_xml(t: Tree) -> Option<Seq<char>>;

/// Whether deserializing this tree into the camt.056 schema succeeds.
pub uninterp spec fn camt056_accepts(t: Tree) -> bool;

/// The XML text of the camt.056 value deserialized from this tree.
pub uninterp spec fn camt056_xml(t: Tree) -> Option<Seq<char>>;

/// Whether deserializing this tree into the camt.057 schema succeeds.
pub uninterp spec fn camt057_accepts(t: Tree) -> bool;

/// The XML text of the camt.057 value deserialized from this tree.
pub uninterp spec fn camt057_xml(t: Tree) -> Option<Seq<char>>;

/// Whether deserializing this tree into the camt.029 schema succeeds.
pub uninterp spec fn camt029_accepts(t: Tree) -> bool;

/// The XML text of the camt.029 value deserialized from this tree.
pub uninterp spec fn camt029_xml(t: Tree) -> Option<Seq<char>>;

/// Whether the row's schema accepts this tree.
pub open spec fn accepts_spec(k: SchemaKind, t: Tree) -> bool {
    match k {
        SchemaKind::Mt103Header => header_accepts(t),
        SchemaKind::Pacs008 => pacs008_accepts(t),
        SchemaKind::Pacs009 => pacs009_accepts(t),
        SchemaKind::Camt056 => camt056_accepts(t),
        SchemaKind::Camt057 => camt057_accepts(t),
        SchemaKind::Camt029 => camt029_accepts(t),
    }
}

/// The XML the row renders for an accepted tree, if rendering succeeds.
pub open spec fn xml_spec(k: SchemaKind, t: Tree) -> Option<Seq<char>> {
    match k {
        SchemaKind::Mt103Header => header_xml(t),
        SchemaKind::Pacs008 => pacs008_xml(t),
        SchemaKind::Pacs009 => pacs009_xml(t),
        SchemaKind::Camt056 => camt056_xml(t),
        SchemaKind::Camt057 => camt057_xml(t),
        SchemaKind::Camt029 => camt029_xml(t),
    }
}

/// The tree is accepted and renders to XML.
pub open spec fn elem_ok(k: SchemaKind, t: Tree) -> bool {
    accepts_spec(k, t) && xml_spec(k, t) is Some
}

/// The dispatch table's key column: which descriptor selects which row.
pub open spec fn kind_of_format(f: Seq<char>) -> Option<SchemaKind> {
    if f == "MT103.Header"@ {
        Some(SchemaKind::Mt103Header)
    } else if f == "MT103.Document"@ {
        Some(SchemaKind::Pacs008)
    } else if f == "pacs.009.001.08"@ {
        Some(SchemaKind::Pacs009)
    } else if f == "camt.056.001.08"@ {
        Some(SchemaKind::Camt056)
    } else if f == "camt.057.001.06"@ {
        Some(SchemaKind::Camt057)
    } else if f == "camt.029.001.09"@ {
        Some(SchemaKind::Camt029)
    } else {
        None
    }
}

/// The sub-field each row expects inside the mapped structure; the header
/// row reads the whole structure.
pub open spec fn subfield_of(k: SchemaKind) -> Option<Seq<char>> {
    match k {
        SchemaKind::Mt103Header => None,
        SchemaKind::Pacs008 => Some("FIToFICstmrCdtTrf"@),
        SchemaKind::Pacs009 => Some("FICdtTrf"@),
        SchemaKind::Camt056 => Some("FIToFIPmtCxlReq"@),
        SchemaKind::Camt057 => Some("NtfctnToRcv"@),
        SchemaKind::Camt029 => Some("RsltnOfInvstgtn"@),
    }
}

/// The stage's own label for a value the row's schema refused; the
/// message it builds starts with this, then carries the outside cause.
pub open spec fn invalid_label(k: SchemaKind) -> Seq<char> {
    match k {
        SchemaKind::Mt103Header => "AppHdr deserialization failed: "@,
        SchemaKind::Pacs008 => "FIToFICustomerCreditTransferV08 deserialization failed: "@,
        SchemaKind::Pacs009 => "FinancialInstitutionCreditTransferV08 deserialization failed: "@,
        SchemaKind::Camt056 => "FIToFIPaymentCancellationRequestV08 deserialization failed: "@,
        SchemaKind::Camt057 => "NotificationToReceiveV06 deserialization failed: "@,
        SchemaKind::Camt029 => "ResolutionOfInvestigationV09 deserialization failed: "@,
    }
}

/// The stage's own label for a validated value that would not render.
pub open spec fn render_label(k: SchemaKind) -> Seq<char> {
    match k {
        SchemaKind::Mt103Header => "Header XML serialization failed: "@,
        _ => "Document XML serialization failed: "@,
    }
}

/// The schema-refusal label, as a string.
fn invalid_label_str(k: SchemaKind) -> (r: &'static str)
    ensures
        r@ == invalid_label(k),
{
    match k {
        SchemaKind::Mt103Header => "AppHdr deserialization failed: ",
        SchemaKind::Pacs008 => "FIToFICustomerCreditTransferV08 deserialization failed: ",
        SchemaKind::Pacs009 => "FinancialInstitutionCreditTransferV08 deserialization failed: ",
        SchemaKind::Camt056 => "FIToFIPaymentCancellationRequestV08 deserialization failed: ",
        SchemaKind::Camt057 => "NotificationToReceiveV06 deserialization failed: ",
        SchemaKind::Camt029 => "ResolutionOfInvestigationV09 deserialization failed: ",
    }
}

/// The render-failure label, as a string.
fn render_label_str(k: SchemaKind) -> (r: &'static str)
    ensures
        r@ == render_label(k),
{
    match k {
        SchemaKind::Mt103Header => "Header XML serialization failed: ",
        SchemaKind::Pacs008 => "Document XML serialization failed: ",
        SchemaKind::Pacs009 => "Document XML serialization failed: ",
        SchemaKind::Camt056 => "Document XML serialization failed: ",
        SchemaKind::Camt057 => "Document XML serialization failed: ",
        SchemaKind::Camt029 => "Document XML serialization failed: ",
    }
}

/// Why one value failed to become XML: it did not fit the schema, or it
/// fit and still would not render.
pub enum RenderFailure {
    Invalid(String),
    Render(String),
}

/// Relies on serde_json::from_value::<BusinessApplicationHeaderV02> and
/// quick_xml::se::to_string: both are functions of the given tree alone,
/// so acceptance and the rendered text go by the names `header_accepts`
/// and `header_xml` and nothing more is claimed of them.
#[verifier::external_body]
fn render_header(n: &Node) -> (r: Result<String, RenderFailure>)
    ensures
        (r is Ok) <==> (header_accepts(n@) && header_xml(n@) is Some),
        r matches Ok(x) ==> x@ == header_xml(n@)->0,
        r matches Err(f) ==> (f is Invalid <==> !header_accepts(n@)) && (f is Render
            <==> header_accepts(n@) && header_xml(n@) is None),
{
    let v = crate::convert::node_to_json(n);
    match serde_json::from_value::<
        mx_message::header::bah_pacs_008_001_08::BusinessApplicationHeaderV02,
    >(v) {
        Ok(h) => match quick_xml::se::to_string(&h) {
            Ok(x) => Ok(x),
            Err(e) => Err(RenderFailure::Render(e.to_string())),
        },
        Err(e) => Err(RenderFailure::Invalid(e.to_string())),
    }
}

/// Relies on serde_json::from_value::<FIToFICustomerCreditTransferV08> and
/// quick_xml::se::to_string_with_root: both are functions of the given
/// tree alone; see `pacs008_accepts` and `pacs008_xml`.
#[verifier::external_body]
fn render_pacs008(n: &Node) -> (r: Result<String, RenderFailure>)
    ensures
        (r is Ok) <==> (pacs008_accepts(n@) && pacs008_xml(n@) is Some),
        r matches Ok(x) ==> x@ == pacs008_xml(n@)->0,
        r matches Err(f) ==> (f is Invalid <==> !pacs008_accepts(n@)) && (f is Render
            <==> pacs008_accepts(n@) && pacs008_xml(n@) is None),
{
    let v = crate::convert::node_to_json(n);
    match serde_json::from_value::<
        mx_message::document::pacs_008_001_08::FIToFICustomerCreditTransferV08,
    >(v) {
        Ok(d) => match quick_xml::se::to_string_with_root("FIToFICstmrCdtTrf", &d) {
            Ok(x) => Ok(x),
            Err(e) => Err(RenderFailure::Render(e.to_string())),
        },
        Err(e) => Err(RenderFailure::Invalid(e.to_string())),
    }
}

/// Relies on serde_json::from_value::<FinancialInstitutionCreditTransferV08>
/// and quick_xml::se::to_string_with_root; see `pacs009_accepts` and
/// `pacs009_xml`.
#[verifier::external_body]
fn render_pacs009(n: &Node) -> (r: Result<String, RenderFailure>)
    ensures
        (r is Ok) <==> (pacs009_accepts(n@) && pacs009_xml(n@) is Some),
        r matches Ok(x) ==> x@ == pacs009_xml(n@)->0,
        r matches Err(f) ==> (f is Invalid <==> !pacs009_accepts(n@)) && (f is Render
            <==> pacs009_accepts(n@) && pacs009_xml(n@) is None),
{
    let v = crate::convert::node_to_json(n);
    match serde_json::from_value::<
        mx_message::document::pacs_009_001_08::FinancialInstitutionCreditTransferV08,
    >(v) {
        Ok(d) => match quick_xml::se::to_string_with_root("FICdtTrf", &d) {
            Ok(x) => Ok(x),
            Err(e) => Err(RenderFailure::Render(e.to_string())),
        },
        Err(e) => Err(RenderFailure::Invalid(e.to_string())),
    }
}

/// Relies on serde_json::from_value::<FIToFIPaymentCancellationRequestV08>
/// and quick_xml::se::to_string_with_root; see `camt056_accepts` and
/// `camt056_xml`.
#[verifier::external_body]
fn render_camt056(n: &Node) -> (r: Result<String, RenderFailure>)
    ensures
        (r is Ok) <==> (camt056_accepts(n@) && camt056_xml(n@) is Some),
        r matches Ok(x) ==> x@ == camt056_xml(n@)->0,
        r matches Err(f) ==> (f is Invalid <==> !camt056_accepts(n@)) && (f is Render
            <==> camt056_accepts(n@) && camt056_xml(n@) is None),
{
    let v = crate::convert::node_to_json(n);
    match serde_json::from_value::<
        mx_message::document::camt_056_001_08::FIToFIPaymentCancellationRequestV08,
    >(v) {
        Ok(d) => match quick_xml::se::to_string_with_root("FIToFIPmtCxlReq", &d) {
            Ok(x) => Ok(x),
            Err(e) => Err(RenderFailure::Render(e.to_string())),
        },
        Err(e) => Err(RenderFailure::Invalid(e.to_string())),
    }
}

/// Relies on serde_json::from_value::<NotificationToReceiveV06> and
/// quick_xml::se::to_string_with_root; see `camt057_accepts` and
/// `camt057_xml`.
#[verifier::external_body]
fn render_camt057(n: &Node) -> (r: Result<String, RenderFailure>)
    ensures
        (r is Ok) <==> (camt057_accepts(n@) && camt057_xml(n@) is Some),
        r matches Ok(x) ==> x@ == camt057_xml(n@)->0,
        r matches Err(f) ==> (f is Invalid <==> !camt057_accepts(n@)) && (f is Render
            <==> camt057_accepts(n@) && camt057_xml(n@) is None),
{
    let v = crate::convert::node_to_json(n);
    match serde_json::from_value::<mx_message::document::camt_057_001_06::NotificationToReceiveV06>(
        v,
    ) {
        Ok(d) => match quick_xml::se::to_string_with_root("NtfctnToRcv", &d) {
            Ok(x) => Ok(x),
            Err(e) => Err(RenderFailure::Render(e.to_string())),
        },
        Err(e) => Err(RenderFailure::Invalid(e.to_string())),
    }
}

/// Relies on serde_json::from_value::<ResolutionOfInvestigationV09> and
/// quick_xml::se::to_string_with_root; see `camt029_accepts` and
/// `camt029_xml`.
#[verifier::external_body]
fn render_camt029(n: &Node) -> (r: Result<String, RenderFailure>)
    ensures
        (r is Ok) <==> (camt029_accepts(n@) && camt029_xml(n@) is Some),
        r matches Ok(x) ==> x@ == camt029_xml(n@)->0,
        r matches Err(f) ==> (f is Invalid <==> !camt029_accepts(n@)) && (f is Render
            <==> camt029_accepts(n@) && camt029_xml(n@) is None),
{
    let v = crate::convert::node_to_json(n);
    match serde_json::from_value::<
        mx_message::document::camt_029_001_09::ResolutionOfInvestigationV09,
    >(v) {
        Ok(d) => match quick_xml::se::to_string_with_root("RsltnOfInvstgtn", &d) {
            Ok(x) => Ok(x),
            Err(e) => Err(RenderFailure::Render(e.to_string())),
        },
        Err(e) => Err(RenderFailure::Invalid(e.to_string())),
    }
}

/// Validate one tree against the row's schema and render it.
fn render_one(k: SchemaKind, n: &Node) -> (r: Result<String, RenderFailure>)
    ensures
        r is Ok <==> elem_ok(k, n@),
        r matches Ok(x) ==> x@ == xml_spec(k, n@)->0,
        r matches Err(f) ==> (f is Invalid <==> !accepts_spec(k, n@)) && (f is Render
            <==> accepts_spec(k, n@) && xml_spec(k, n@) is None),
{
    match k {
        SchemaKind::Mt103Header => render_header(n),
        SchemaKind::Pacs008 => render_pacs008(n),
        SchemaKind::Pacs009 => render_pacs009(n),
        SchemaKind::Camt056 => render_camt056(n),
        SchemaKind::Camt057 => render_camt057(n),
        SchemaKind::Camt029 => render_camt029(n),
    }
}

/// Find a descriptor's row of the dispatch table.
fn kind_lookup(f: &String) -> (r: Option<SchemaKind>)
    ensures
        r == kind_of_format(f@),
{
    if f.eq(&String::from_str("MT103.Header")) {
        Some(SchemaKind::Mt103Header)
    } else if f.eq(&String::from_str("MT103.Document")) {
        Some(SchemaKind::Pacs008)
    } else if f.eq(&String::from_str("pacs.009.001.08")) {
        Some(SchemaKind::Pacs009)
    } else if f.eq(&String::from_str("camt.056.001.08")) {
        Some(SchemaKind::Camt056)
    } else if f.eq(&String::from_str("camt.057.001.06")) {
        Some(SchemaKind::Camt057)
    } else if f.eq(&String::from_str("camt.029.001.09")) {
        Some(SchemaKind::Camt029)
    } else {
        None
    }
}

/// The row's expected sub-field name, as a string.
fn subfield_str(k: SchemaKind) -> (r: Option<String>)
    ensures
        match r {
            Some(s) => subfield_of(k) == Some(s@),
            None => subfield_of(k) is None,
        },
{
    match k {
        SchemaKind::Mt103Header => None,
        SchemaKind::Pacs008 => Some(String::from_str("FIToFICstmrCdtTrf")),
        SchemaKind::Pacs009 => Some(String::from_str("FICdtTrf")),
        SchemaKind::Camt056 => Some(String::from_str("FIToFIPmtCxlReq")),
        SchemaKind::Camt057 => Some(String::from_str("NtfctnToRcv")),
        SchemaKind::Camt029 => Some(String::from_str("RsltnOfInvstgtn")),
    }
}

/// The publish stage's inputs.  The output field may be left out: the
/// reserved names `result` and `results` then apply.
pub struct PublishConfig {
    pub output_format: Option<String>,
    pub input_field_name: Option<String>,
    pub output_field_name: Option<String>,
}

/// The tree the row's schema is checked against: the value at the input
/// field for the header row, else that value's expected sub-field.
pub open spec fn publish_subject(d: DocView, k: SchemaKind, input_field: Seq<char>) -> Option<
    Tree,
> {
    match resolve(d.data, split_dots(input_field)) {
        None => None,
        Some(v) => match subfield_of(k) {
            None => Some(v),
            Some(sf) => child(v, sf),
        },
    }
}

/// A sub-field row whose subject is a list publishes each element.
pub open spec fn is_fanout(k: SchemaKind, subject: Tree) -> bool {
    subfield_of(k) is Some && subject is List
}

/// Every element of a fan-out batch is accepted and renders.
pub open spec fn fan_all_ok(k: SchemaKind, es: Seq<Tree>) -> bool {
    forall|i: int| 0 <= i < es.len() ==> elem_ok(k, #[trigger] es[i])
}

/// The ordered list of rendered texts of a fan-out batch.
pub open spec fn fan_xml_list(k: SchemaKind, es: Seq<Tree>) -> Tree {
    Tree::List(Seq::new(es.len(), |i: int| Tree::Text(xml_spec(k, es[i])->0)))
}

/// How a combined fan-out error names one failing element.
pub open spec fn index_marker(i: nat) -> Seq<char> {
    "index "@ + dec_str(i) + ":"@
}

/// The markers of two failing indices stand in the combined message in
/// order: the first occurs wholly before the second.
pub open spec fn markers_ordered_pair(m: Seq<char>, i: nat, j: nat) -> bool {
    exists|ki: int, kj: int|
        #![trigger occurs_at(m, index_marker(i), ki), occurs_at(m, index_marker(j), kj)]
        occurs_at(m, index_marker(i), ki) && occurs_at(m, index_marker(j), kj) && ki
            + index_marker(i).len() <= kj
}

/// The name of the field the stage writes: the configured one, or the
/// reserved `results` / `result`.
pub open spec fn publish_out_name(cfg: PublishConfig, fan: bool) -> Seq<char> {
    match cfg.output_field_name {
        Some(s) => s@,
        None => if fan {
            "results"@
        } else {
            "result"@
        },
    }
}

/// The dispatch row the configuration selects, if any.
pub open spec fn cfg_kind(cfg: PublishConfig) -> Option<SchemaKind> {
    if cfg.output_format is Some {
        kind_of_format(cfg.output_format->0@)
    } else {
        None
    }
}

/// The subject tree the configuration selects on a document, if any.
pub open spec fn cfg_subject(cfg: PublishConfig, d: DocView) -> Option<Tree> {
    if cfg.input_field_name is Some && cfg_kind(cfg) is Some {
        publish_subject(d, cfg_kind(cfg)->0, cfg.input_field_name->0@)
    } else {
        None
    }
}

/// The stage succeeds exactly here: inputs present, descriptor known,
/// subject found, and everything in it accepted and rendered.
pub open spec fn publish_applies(cfg: PublishConfig, d: DocView) -> bool {
    &&& cfg.output_format is Some
    &&& cfg.input_field_name is Some
    &&& cfg_kind(cfg) is Some
    &&& cfg_subject(cfg, d) is Some
    &&& if is_fanout(cfg_kind(cfg)->0, cfg_subject(cfg, d)->0) {
        fan_all_ok(cfg_kind(cfg)->0, cfg_subject(cfg, d)->0->List_0)
    } else {
        elem_ok(cfg_kind(cfg)->0, cfg_subject(cfg, d)->0)
    }
}

/// The publish dispatcher registered with the pipeline under the name
/// `publish`.
pub struct PublishFunction;

impl PublishFunction {
    /// Run the publish stage on one document.
    ///
    /// On success the output field holds the rendered XML text, or the
    /// ordered list of texts for a fan-out batch, and the one change
    /// records the write.  On any failure nothing is written: a missing
    /// stage input is a configuration error, an unknown descriptor names
    /// itself, a missing input field or sub-field names itself, a value
    /// the schema refuses is a validation error, and a fan-out failure
    /// lists every failing index.
    pub fn execute(&self, doc: &mut Document, cfg: &PublishConfig) -> (r: Result<
        (usize, Vec<Change>),
        StageError,
    >)
        ensures
            (r is Ok) <==> publish_applies(*cfg, old(doc)@),
            r is Err ==> *final(doc) == *old(doc),
            cfg.output_format is None ==> (r matches Err(StageError::Config(m)) && m@
                == "Missing output_format"@),
            cfg.output_format is Some && cfg.input_field_name is None ==> (r matches Err(
                StageError::Config(m),
            ) && m@ == "Missing input_field_name"@),
            (cfg.output_format is Some && cfg.input_field_name is Some && cfg_kind(*cfg) is None)
                ==> (r matches Err(StageError::UnsupportedFormat(m)) && m@
                == "Unsupported output format: "@ + cfg.output_format->0@),
            (cfg.output_format is Some && cfg.input_field_name is Some && cfg_kind(*cfg) is Some
                && resolve(old(doc)@.data, split_dots(cfg.input_field_name->0@)) is None) ==> (
            r matches Err(StageError::Validation(m)) && m@ == "Field "@ + cfg.input_field_name->0@
                + " not found in message data"@),
            (cfg.output_format is Some && cfg.input_field_name is Some && cfg_kind(*cfg) is Some
                && resolve(old(doc)@.data, split_dots(cfg.input_field_name->0@)) is Some
                && subfield_of(cfg_kind(*cfg)->0) is Some && child(
                resolve(old(doc)@.data, split_dots(cfg.input_field_name->0@))->0,
                subfield_of(cfg_kind(*cfg)->0)->0,
            ) is None) ==> (r matches Err(StageError::Validation(m)) && m@ == subfield_of(
                cfg_kind(*cfg)->0,
            )->0 + " not found in document"@),
            (cfg_subject(*cfg, old(doc)@) is Some && !is_fanout(
                cfg_kind(*cfg)->0,
                cfg_subject(*cfg, old(doc)@)->0,
            ) && !accepts_spec(cfg_kind(*cfg)->0, cfg_subject(*cfg, old(doc)@)->0)) ==> (
            r matches Err(StageError::Validation(m)) && invalid_label(
                cfg_kind(*cfg)->0,
            ).is_prefix_of(m@)),
            (cfg_subject(*cfg, old(doc)@) is Some && !is_fanout(
                cfg_kind(*cfg)->0,
                cfg_subject(*cfg, old(doc)@)->0,
            ) && accepts_spec(cfg_kind(*cfg)->0, cfg_subject(*cfg, old(doc)@)->0) && xml_spec(
                cfg_kind(*cfg)->0,
                cfg_subject(*cfg, old(doc)@)->0,
            ) is None) ==> (r matches Err(StageError::Render(m)) && render_label(
                cfg_kind(*cfg)->0,
            ).is_prefix_of(m@)),
            (cfg_subject(*cfg, old(doc)@) is Some && is_fanout(
                cfg_kind(*cfg)->0,
                cfg_subject(*cfg, old(doc)@)->0,
            ) && !fan_all_ok(
                cfg_kind(*cfg)->0,
                cfg_subject(*cfg, old(doc)@)->0->List_0,
            )) ==> (r matches Err(StageError::Validation(m)) && (forall|i: int|
                0 <= i < cfg_subject(*cfg, old(doc)@)->0->List_0.len() && !elem_ok(
                    cfg_kind(*cfg)->0,
                    #[trigger] cfg_subject(*cfg, old(doc)@)->0->List_0[i],
                ) ==> contains_seq(m@, index_marker(i as nat))) && (forall|i: int, j: int|
                0 <= i < j < cfg_subject(*cfg, old(doc)@)->0->List_0.len() && !elem_ok(
                    cfg_kind(*cfg)->0,
                    #[trigger] cfg_subject(*cfg, old(doc)@)->0->List_0[i],
                ) && !elem_ok(
                    cfg_kind(*cfg)->0,
                    #[trigger] cfg_subject(*cfg, old(doc)@)->0->List_0[j],
                ) ==> markers_ordered_pair(m@, i as nat, j as nat))),
            r matches Ok(ok) ==> ({
                let k = cfg_kind(*cfg)->0;
                let subj = cfg_subject(*cfg, old(doc)@)->0;
                let fan = is_fanout(k, subj);
                let oname = publish_out_name(*cfg, fan);
                let outv = if fan {
                    fan_xml_list(k, subj->List_0)
                } else {
                    Tree::Text(xml_spec(k, subj)->0)
                };
                &&& final(doc)@.data == graft(old(doc)@.data, split_dots(oname), outv)
                &&& final(doc)@.payload == old(doc)@.payload
                &&& final(doc)@.metadata == old(doc)@.metadata
                &&& final(doc)@.errors == old(doc)@.errors
                &&& ok.0 == 200
                &&& ok.1@.len() == 1
                &&& ok.1@[0].path@ == "data."@ + oname
                &&& ok.1@[0].old_value@ == (match resolve(old(doc)@.data, split_dots(oname)) {
                    Some(t) => t,
                    None => Tree::Null,
                })
                &&& ok.1@[0].new_value@ == outv
            }),
    {
        let output_format = match &cfg.output_format {
            Some(f) => f,
            None => {
                return Err(StageError::Config(String::from_str("Missing output_format")));
            },
        };
        let input_field_name = match &cfg.input_field_name {
            Some(f) => f,
            None => {
                return Err(StageError::Config(String::from_str("Missing input_field_name")));
            },
        };
        let kind = match kind_lookup(output_format) {
            Some(k) => k,
            None => {
                let msg = String::from_str("Unsupported output format: ").concat(
                    output_format.as_str(),
                );
                return Err(StageError::UnsupportedFormat(msg));
            },
        };

        let ipath = FieldPath::parse(input_field_name.as_str());
        let subject: Node = {
            let found = match doc.get_data(&ipath) {
                Some(v) => v,
                None => {
                    let msg = String::from_str("Field ").concat(input_field_name.as_str()).concat(
                        " not found in message data",
                    );
                    return Err(StageError::Validation(msg));
                },
            };
            match subfield_str(kind) {
                None => found.deep_copy(),
                Some(sf) => {
                    let mut segs: Vec<String> = Vec::new();
                    segs.push(sf);
                    let sfpath = FieldPath { segs };
                    proof {
                        reveal_with_fuel(resolve, 3);
                        assert(sfpath@.len() == 1);
                        assert(sfpath@[0] == sfpath.segs@[0]@);
                        assert(sfpath@.skip(0) =~= sfpath@);
                        assert(sfpath@.skip(1) =~= Seq::<Seq<char>>::empty());
                    }
                    match found.resolve_at(&sfpath, 0) {
                        Some(c) => {
                            proof {
                                assert(resolve(found@, sfpath@) == Some(c@));
                                assert(child(found@, sfpath@[0]) == Some(c@));
                            }
                            c.deep_copy()
                        },
                        None => {
                            proof {
                                if child(found@, sfpath.segs@[0]@) is Some {
                                    assert(resolve(found@, sfpath@) == Some(
                                        child(found@, sfpath.segs@[0]@)->0,
                                    ));
                                }
                                assert(child(found@, sfpath.segs@[0]@) is None);
                            }
                            let msg = sfpath.segs[0].clone().concat(" not found in document");
                            return Err(StageError::Validation(msg));
                        },
                    }
                },
            }
        };
        proof {
            assert(Some(subject@) == publish_subject(
                old(doc)@,
                kind,
                cfg.input_field_name->0@,
            ));
        }

        let has_subfield = match subfield_str(kind) {
            Some(_) => true,
            None => false,
        };

        if has_subfield && subject.is_list() {
            self.publish_many(doc, cfg, kind, &subject)
        } else {
            self.publish_single(doc, cfg, kind, &subject)
        }
    }

    /// Publish one value: validate, render, write the text.
    fn publish_single(
        &self,
        doc: &mut Document,
        cfg: &PublishConfig,
        kind: SchemaKind,
        subject: &Node,
    ) -> (r: Result<(usize, Vec<Change>), StageError>)
        requires
            cfg.output_format is Some,
            cfg.input_field_name is Some,
            kind_of_format(cfg.output_format->0@) == Some(kind),
            publish_subject(old(doc)@, kind, cfg.input_field_name->0@) == Some(subject@),
            !is_fanout(kind, subject@),
        ensures
            r is Ok <==> elem_ok(kind, subject@),
            r is Err ==> *final(doc) == *old(doc),
            !accepts_spec(kind, subject@) ==> (r matches Err(StageError::Validation(m))
                && invalid_label(kind).is_prefix_of(m@)),
            accepts_spec(kind, subject@) && xml_spec(kind, subject@) is None ==> (r matches Err(
                StageError::Render(m),
            ) && render_label(kind).is_prefix_of(m@)),
            r matches Ok(ok) ==> ({
                let oname = publish_out_name(*cfg, false);
                let outv = Tree::Text(xml_spec(kind, subject@)->0);
                &&& final(doc)@.data == graft(old(doc)@.data, split_dots(oname), outv)
                &&& final(doc)@.payload == old(doc)@.payload
                &&& final(doc)@.metadata == old(doc)@.metadata
                &&& final(doc)@.errors == old(doc)@.errors
                &&& ok.0 == 200
                &&& ok.1@.len() == 1
                &&& ok.1@[0].path@ == "data."@ + oname
                &&& ok.1@[0].old_value@ == (match resolve(old(doc)@.data, split_dots(oname)) {
                    Some(t) => t,
                    None => Tree::Null,
                })
                &&& ok.1@[0].new_value@ == outv
            }),
    {
        let xml = match render_one(kind, subject) {
            Ok(x) => x,
            Err(RenderFailure::Invalid(cause)) => {
                let mut msg = invalid_label_str(kind).to_owned();
                msg.append(cause.as_str());
                proof {
                    assert(msg@.subrange(0, invalid_label(kind).len() as int) =~= invalid_label(
                        kind,
                    ));
                }
                return Err(StageError::Validation(msg));
            },
            Err(RenderFailure::Render(cause)) => {
                let mut msg = render_label_str(kind).to_owned();
                msg.append(cause.as_str());
                proof {
                    assert(msg@.subrange(0, render_label(kind).len() as int) =~= render_label(
                        kind,
                    ));
                }
                return Err(StageError::Render(msg));
            },
        };
        let out_name = match &cfg.output_field_name {
            Some(s) => s.clone(),
            None => String::from_str("result"),
        };
        self.write_result(doc, out_name, Node::Text(xml))
    }

    /// Publish a fan-out batch: every element renders, or nothing is
    /// written and the combined error lists every failing index.
    #[verifier::loop_isolation(false)]
    fn publish_many(
        &self,
        doc: &mut Document,
        cfg: &PublishConfig,
        kind: SchemaKind,
        subject: &Node,
    ) -> (r: Result<(usize, Vec<Change>), StageError>)
        requires
            cfg.output_format is Some,
            cfg.input_field_name is Some,
            kind_of_format(cfg.output_format->0@) == Some(kind),
            publish_subject(old(doc)@, kind, cfg.input_field_name->0@) == Some(subject@),
            is_fanout(kind, subject@),
        ensures
            r is Ok <==> fan_all_ok(kind, subject@->List_0),
            r is Err ==> *final(doc) == *old(doc),
            !fan_all_ok(kind, subject@->List_0) ==> (r matches Err(StageError::Validation(m))
                && (forall|i: int|
                0 <= i < subject@->List_0.len() && !elem_ok(kind, #[trigger] subject@->List_0[i])
                    ==> contains_seq(m@, index_marker(i as nat))) && (forall|i: int, j: int|
                0 <= i < j < subject@->List_0.len() && !elem_ok(
                    kind,
                    #[trigger] subject@->List_0[i],
                ) && !elem_ok(kind, #[trigger] subject@->List_0[j]) ==> markers_ordered_pair(
                    m@,
                    i as nat,
                    j as nat,
                ))),
            r matches Ok(ok) ==> ({
                let oname = publish_out_name(*cfg, true);
                let outv = fan_xml_list(kind, subject@->List_0);
                &&& final(doc)@.data == graft(old(doc)@.data, split_dots(oname), outv)
                &&& final(doc)@.payload == old(doc)@.payload
                &&& final(doc)@.metadata == old(doc)@.metadata
                &&& final(doc)@.errors == old(doc)@.errors
                &&& ok.0 == 200
                &&& ok.1@.len() == 1
                &&& ok.1@[0].path@ == "data."@ + oname
                &&& ok.1@[0].old_value@ == (match resolve(old(doc)@.data, split_dots(oname)) {
                    Some(t) => t,
                    None => Tree::Null,
                })
                &&& ok.1@[0].new_value@ == outv
            }),
    {
        let xs = match subject.as_list() {
            Some(xs) => xs,
            None => {
                proof {
                    assert(false);
                }
                return Err(StageError::Validation(String::new()));
            },
        };
        let ghost es = items_model(xs@);
        proof {
            lemma_items_model(xs@);
        }
        let mut xmls: Vec<Node> = Vec::new();
        let mut failures = String::new();
        let mut any_fail: bool = false;
        let ghost mut marks: Seq<int> = Seq::empty();
        let mut i: usize = 0;
        while i < xs.len()
            invariant
                0 <= i <= xs.len(),
                marks.len() == i,
                any_fail <==> (exists|m: int| 0 <= m < i && !elem_ok(kind, #[trigger] es[m])),
                forall|m: int|
                    0 <= m < i && !elem_ok(kind, #[trigger] es[m]) ==> contains_seq(
                        failures@,
                        index_marker(m as nat),
                    ),
                forall|m: int|
                    0 <= m < i && !elem_ok(kind, #[trigger] es[m]) ==> occurs_at(
                        failures@,
                        index_marker(m as nat),
                        marks[m],
                    ),
                forall|m0: int, m1: int|
                    0 <= m0 < m1 < i && !elem_ok(kind, #[trigger] es[m0]) && !elem_ok(
                        kind,
                        #[trigger] es[m1],
                    ) ==> marks[m0] + index_marker(m0 as nat).len() <= marks[m1],
                !any_fail ==> xmls@.len() == i && (forall|m: int|
                    0 <= m < i ==> node_model(#[trigger] xmls@[m]) == Tree::Text(
                        xml_spec(kind, es[m])->0,
                    )),
            decreases xs.len() - i,
        {
            proof {
                lemma_items_model(xs@);
            }
            match render_one(kind, &xs[i]) {
                Ok(x) => {
                    proof {
                        assert(elem_ok(kind, es[i as int]));
                        marks = marks.push(0);
                    }
                    if !any_fail {
                        xmls.push(Node::Text(x));
                    }
                },
                Err(f) => {
                    let fmsg = match f {
                        RenderFailure::Invalid(cause) => {
                            let mut labelled = invalid_label_str(kind).to_owned();
                            labelled.append(cause.as_str());
                            labelled
                        },
                        RenderFailure::Render(cause) => {
                            let mut labelled = render_label_str(kind).to_owned();
                            labelled.append(cause.as_str());
                            labelled
                        },
                    };
                    proof {
                        assert(!elem_ok(kind, es[i as int]));
                    }
                    let ghost pre = failures@;
                    any_fail = true;
                    failures.append("index ");
                    let num = usize_to_string(i);
                    failures.append(num.as_str());
                    failures.append(": ");
                    failures.append(fmsg.as_str());
                    failures.append("; ");
                    proof {
                        reveal_strlit(":");
                        reveal_strlit(": ");
                        let marker = index_marker(i as nat);
                        let suffix = failures@.skip(pre.len() as int);
                        assert(failures@ =~= pre + suffix);
                        assert(suffix.subrange(0, 0 + marker.len() as int) =~= marker);
                        assert(contains_seq(suffix, marker));
                        lemma_contains_extend(pre, suffix, marker);
                        assert(occurs_at(suffix, marker, 0));
                        lemma_occurs_in_suffix(pre, suffix, marker, 0);
                        marks = marks.push(pre.len() as int);
                        assert forall|m: int|
                            0 <= m < i + 1 && !elem_ok(kind, #[trigger] es[m]) implies contains_seq(
                            failures@,
                            index_marker(m as nat),
                        ) by {
                            if m < i {
                                lemma_contains_extend(pre, suffix, index_marker(m as nat));
                            }
                        }
                        assert forall|m: int|
                            0 <= m < i + 1 && !elem_ok(kind, #[trigger] es[m]) implies occurs_at(
                            failures@,
                            index_marker(m as nat),
                            marks[m],
                        ) by {
                            if m < i {
                                lemma_occurs_extend_right(
                                    pre,
                                    suffix,
                                    index_marker(m as nat),
                                    marks[m],
                                );
                            }
                        }
                    }
                },
            }
            i = i + 1;
        }
        if any_fail {
            proof {
                assert forall|i0: int, j0: int|
                    0 <= i0 < j0 < es.len() && !elem_ok(kind, #[trigger] es[i0]) && !elem_ok(
                        kind,
                        #[trigger] es[j0],
                    ) implies markers_ordered_pair(failures@, i0 as nat, j0 as nat) by {
                    assert(occurs_at(failures@, index_marker(i0 as nat), marks[i0]));
                    assert(occurs_at(failures@, index_marker(j0 as nat), marks[j0]));
                }
            }
            return Err(StageError::Validation(failures));
        }
        proof {
            assert(fan_all_ok(kind, es));
            lemma_items_model(xmls@);
            assert(items_model(xmls@) =~= Seq::new(es.len(), |m: int| Tree::Text(
                xml_spec(kind, es[m])->0,
            )));
        }
        let out_name = match &cfg.output_field_name {
            Some(s) => s.clone(),
            None => String::from_str("results"),
        };
        self.write_result(doc, out_name, Node::List(xmls))
    }

    /// Write the rendered value at the output field and record the change.
    fn write_result(&self, doc: &mut Document, out_name: String, value: Node) -> (r: Result<
        (usize, Vec<Change>),
        StageError,
    >)
        ensures
            r is Ok,
            r matches Ok(ok) ==> ({
                &&& final(doc)@.data == graft(old(doc)@.data, split_dots(out_name@), value@)
                &&& final(doc)@.payload == old(doc)@.payload
                &&& final(doc)@.metadata == old(doc)@.metadata
                &&& final(doc)@.errors == old(doc)@.errors
                &&& ok.0 == 200
                &&& ok.1@.len() == 1
                &&& ok.1@[0].path@ == "data."@ + out_name@
                &&& ok.1@[0].old_value@ == (match resolve(old(doc)@.data, split_dots(out_name@)) {
                    Some(t) => t,
                    None => Tree::Null,
                })
                &&& ok.1@[0].new_value@ == value@
            }),
    {
        let opath = FieldPath::parse(out_name.as_str());
        let old_value = match doc.get_data(&opath) {
            Some(found) => found.deep_copy(),
            None => Node::Null,
        };
        let new_value = value.deep_copy();
        doc.set_data(&opath, value);
        let change = Change {
            path: String::from_str("data.").concat(out_name.as_str()),
            old_value,
            new_value,
        };
        let mut changes: Vec<Change> = Vec::new();
        changes.push(change);
        Ok((200, changes))
    }
}

} // verus!
