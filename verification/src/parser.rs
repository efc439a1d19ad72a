//! The parse stage: raw wire text in, structured field tree out.
//!
//! The stage resolves its input text (the document's raw payload, or a
//! previously written text field), hands it to the wire-format parser, and
//! writes the outcome into `data` at the configured output field.  A parser
//! failure is not a stage failure: the stage then writes a structured
//! failure object instead, carrying the failure description, the raw input
//! and the format token, so that later stages see a flagged value rather
//! than a crashed run.  Non-ASCII text is held back from the parser — which
//! indexes bytes and would abort on it — and degrades the same way, under
//! the stage's own description.  Only a missing stage input or an unknown
//! format aborts the stage, and then nothing is written.

use crate::document::{Change, DocView, Document};
use crate::error::StageError;
use crate::path::{split_dots, FieldPath};
use crate::text::{unescape_newlines, unescaped};
use crate::tree::{graft, resolve, Node, Tree};
use vstd::prelude::*;
use vstd::utf8::is_ascii_chars;

verus! {

/// Whether the wire-format parser accepts this text as a complete message
/// (and its structure survives the conversion to a generic tree).
pub uninterp spec fn swift_accepts(text: Seq<char>) -> bool;

/// The field tree that the wire-format parser reads out of this text.
pub uninterp spec fn swift_tree(text: Seq<char>) -> Tree;

/// The message-subtype token the parser reports for this text.
pub uninterp spec fn swift_message_type(text: Seq<char>) -> Seq<char>;

/// The parser's failure description for a text it does not accept.
pub uninterp spec fn swift_failure(text: Seq<char>) -> Seq<char>;

/// Relies on swift_mt_message::SwiftParser::parse::<MT103> and
/// serde_json::to_value: parsing a text and converting the parsed message
/// to a generic tree are functions of the text alone, so the outcome, the
/// tree, the reported message type and the failure description each get a
/// name here and nothing more is claimed of them.  The parser indexes its
/// header blocks by byte position after checking only byte lengths, so it
/// can abort on text where a byte index is no character boundary; ASCII
/// text is therefore required, and the stage guards the call.
#[verifier::external_body]
fn parse_swift(text: &str) -> (r: Result<(Node, String), String>)
    requires
        is_ascii_chars(text@),
    ensures
        r is Ok <==> swift_accepts(text@),
        r matches Ok(p) ==> p.0@ == swift_tree(text@) && p.1@ == swift_message_type(text@),
        r matches Err(e) ==> e@ == swift_failure(text@),
{
    match swift_mt_message::SwiftParser::parse::<swift_mt_message::messages::mt103::MT103>(text) {
        Ok(m) => {
            let message_type = m.message_type.clone();
            match serde_json::to_value(&m) {
                Ok(v) => Ok((crate::convert::json_to_node(&v), message_type)),
                Err(e) => Err(format!("{e:?}")),
            }
        },
        Err(e) => Err(format!("{e:?}")),
    }
}

/// The parse stage's inputs, as handed over by the orchestrator.  Every
/// field is required; a missing one is a configuration fault.
pub struct ParseConfig {
    pub format: Option<String>,
    pub input_field_name: Option<String>,
    pub output_field_name: Option<String>,
}

/// The text the stage parses: the unescaped raw payload when the input
/// field is the payload sentinel, else the text at that field of `data`,
/// or empty where that field is absent or no text.
pub open spec fn parse_input_text(d: DocView, input_field: Seq<char>) -> Seq<char> {
    if input_field == "payload"@ {
        unescaped(d.payload)
    } else {
        match resolve(d.data, split_dots(input_field)) {
            Some(Tree::Text(s)) => s,
            _ => Seq::empty(),
        }
    }
}

/// The structured failure object written when a text is not parsed: the
/// failure description, the raw input, and the format token.
pub open spec fn degraded_tree(description: Seq<char>, text: Seq<char>) -> Tree {
    Tree::Obj(
        seq![
            ("library_error"@, Tree::Text(description)),
            ("raw_payload"@, Tree::Text(text)),
            ("format"@, Tree::Text("SwiftMT"@)),
        ],
    )
}

/// The text is handed to the wire-format parser, and the parser takes it.
pub open spec fn parse_succeeds(text: Seq<char>) -> bool {
    is_ascii_chars(text) && swift_accepts(text)
}

/// The failure description the stage records: its own guard text for
/// non-ASCII input, which the parser never sees, else the parser's own
/// failure description.
pub open spec fn parse_failure_description(text: Seq<char>) -> Seq<char> {
    if !is_ascii_chars(text) {
        "input is not ASCII text"@
    } else {
        swift_failure(text)
    }
}

/// What the stage writes at its output field: the parsed tree on success,
/// the structured failure object otherwise.
pub open spec fn parse_result_tree(text: Seq<char>) -> Tree {
    if parse_succeeds(text) {
        swift_tree(text)
    } else {
        degraded_tree(parse_failure_description(text), text)
    }
}

/// What the stage writes into `metadata` under the format key: the
/// detected message subtype, or the unknown sentinel.
pub open spec fn parse_meta_tree(text: Seq<char>) -> Tree {
    Tree::Obj(
        seq![
            ("message_type"@, Tree::Text(
                if parse_succeeds(text) {
                    swift_message_type(text)
                } else {
                    "unknown"@
                },
            )),
        ],
    )
}

/// All three stage inputs are present and the format is the supported one.
pub open spec fn parse_applies(cfg: ParseConfig) -> bool {
    &&& cfg.format matches Some(f) && f@ == "SwiftMT"@
    &&& cfg.input_field_name is Some
    &&& cfg.output_field_name is Some
}

/// The parse adapter registered with the pipeline under the name `parse`.
pub struct ParserFunction;

impl ParserFunction {
    /// Run the parse stage on one document.
    ///
    /// The stage aborts, leaving the document untouched, exactly when a
    /// stage input is missing or the format is not supported.  Otherwise it
    /// returns the ok status with the one change it made: the output field
    /// now holds the parsed tree, or the structured failure object, and the
    /// metadata notes the detected message type.
    pub fn execute(&self, doc: &mut Document, cfg: &ParseConfig) -> (r: Result<
        (usize, Vec<Change>),
        StageError,
    >)
        ensures
            r is Ok <==> parse_applies(*cfg),
            r is Err ==> *final(doc) == *old(doc),
            cfg.format is None ==> (r matches Err(StageError::Config(m)) && m@
                == "Missing format"@),
            cfg.format is Some && cfg.input_field_name is None ==> (r matches Err(
                StageError::Config(m),
            ) && m@ == "Missing input_field_name"@),
            cfg.format is Some && cfg.input_field_name is Some && cfg.output_field_name is None
                ==> (r matches Err(StageError::Config(m)) && m@ == "Missing output_field_name"@),
            (cfg.format is Some && cfg.input_field_name is Some && cfg.output_field_name is Some
                && cfg.format->0@ != "SwiftMT"@) ==> (r matches Err(
                StageError::UnsupportedFormat(m),
            ) && m@ == "Unsupported format: "@ + cfg.format->0@),
            r matches Ok(ok) ==> {
                let text = parse_input_text(old(doc)@, cfg.input_field_name->0@);
                let opath = split_dots(cfg.output_field_name->0@);
                &&& final(doc)@.data == graft(old(doc)@.data, opath, parse_result_tree(text))
                &&& final(doc)@.metadata == graft(
                    old(doc)@.metadata,
                    split_dots("SwiftMT"@),
                    parse_meta_tree(text),
                )
                &&& final(doc)@.payload == old(doc)@.payload
                &&& final(doc)@.errors == old(doc)@.errors
                &&& ok.0 == 200
                &&& ok.1@.len() == 1
                &&& ok.1@[0].path@ == "data."@ + cfg.output_field_name->0@
                &&& ok.1@[0].old_value@ == (match resolve(old(doc)@.data, opath) {
                    Some(t) => t,
                    None => Tree::Null,
                })
                &&& ok.1@[0].new_value@ == parse_result_tree(text)
            },
    {
        let format = match &cfg.format {
            Some(f) => f,
            None => {
                return Err(StageError::Config(String::from_str("Missing format")));
            },
        };
        let input_field_name = match &cfg.input_field_name {
            Some(f) => f,
            None => {
                return Err(StageError::Config(String::from_str("Missing input_field_name")));
            },
        };
        let output_field_name = match &cfg.output_field_name {
            Some(f) => f,
            None => {
                return Err(StageError::Config(String::from_str("Missing output_field_name")));
            },
        };
        if !format.eq(&String::from_str("SwiftMT")) {
            let msg = String::from_str("Unsupported format: ").concat(format.as_str());
            return Err(StageError::UnsupportedFormat(msg));
        }

        let text: String = if input_field_name.eq(&String::from_str("payload")) {
            unescape_newlines(self_payload(doc))
        } else {
            let ipath = FieldPath::parse(input_field_name.as_str());
            match doc.get_data(&ipath) {
                Some(found) => match found.as_text() {
                    Some(s) => s.clone(),
                    None => String::new(),
                },
                None => String::new(),
            }
        };
        proof {
            assert(text@ == parse_input_text(old(doc)@, cfg.input_field_name->0@));
        }

        let parsed: Node = if !text.as_str().is_ascii() {
            let meta = meta_obj(String::from_str("unknown"));
            let mpath = FieldPath::parse("SwiftMT");
            doc.set_metadata(&mpath, meta);
            degraded_obj(String::from_str("input is not ASCII text"), text.clone())
        } else {
            match parse_swift(text.as_str()) {
                Ok((node, message_type)) => {
                    let meta = meta_obj(message_type);
                    let mpath = FieldPath::parse("SwiftMT");
                    doc.set_metadata(&mpath, meta);
                    node
                },
                Err(description) => {
                    let meta = meta_obj(String::from_str("unknown"));
                    let mpath = FieldPath::parse("SwiftMT");
                    doc.set_metadata(&mpath, meta);
                    degraded_obj(description, text.clone())
                },
            }
        };
        proof {
            assert(parsed@ == parse_result_tree(text@));
        }

        let opath = FieldPath::parse(output_field_name.as_str());
        let old_value = match doc.get_data(&opath) {
            Some(found) => found.deep_copy(),
            None => Node::Null,
        };
        let new_value = parsed.deep_copy();
        doc.set_data(&opath, parsed);

        let change = Change {
            path: String::from_str("data.").concat(output_field_name.as_str()),
            old_value,
            new_value,
        };
        let mut changes: Vec<Change> = Vec::new();
        changes.push(change);
        Ok((200, changes))
    }
}

/// The raw payload text of a document.
fn self_payload<'a>(doc: &'a Document) -> (r: &'a str)
    ensures
        r@ == doc@.payload,
{
    doc.payload.as_str()
}

/// The metadata object `{ "message_type": t }`.
fn meta_obj(t: String) -> (r: Node)
    ensures
        r@ == Tree::Obj(seq![("message_type"@, Tree::Text(t@))]),
{
    let mut entries: Vec<(String, Node)> = Vec::new();
    entries.push((String::from_str("message_type"), Node::Text(t)));
    let r = Node::Obj(entries);
    proof {
        crate::tree::lemma_entries_model(entries@);
        assert(crate::tree::entries_model(entries@) =~= seq![
            ("message_type"@, Tree::Text(entries@[0].1->Text_0@)),
        ]);
    }
    r
}

/// The structured failure object for a text that was not parsed.
fn degraded_obj(description: String, text: String) -> (r: Node)
    ensures
        r@ == degraded_tree(description@, text@),
{
    let mut entries: Vec<(String, Node)> = Vec::new();
    entries.push((String::from_str("library_error"), Node::Text(description)));
    entries.push((String::from_str("raw_payload"), Node::Text(text)));
    entries.push((String::from_str("format"), Node::Text(String::from_str("SwiftMT"))));
    let r = Node::Obj(entries);
    proof {
        crate::tree::lemma_entries_model(entries@);
        assert(crate::tree::entries_model(entries@) =~= seq![
            ("library_error"@, Tree::Text(entries@[0].1->Text_0@)),
            ("raw_payload"@, Tree::Text(entries@[1].1->Text_0@)),
            ("format"@, Tree::Text(entries@[2].1->Text_0@)),
        ]);
    }
    r
}

} // verus!
