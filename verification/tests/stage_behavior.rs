use reframe::document::Document;
use reframe::error::StageError;
use reframe::parser::{ParseConfig, ParserFunction};
use reframe::path::FieldPath;
use reframe::publish::{PublishConfig, PublishFunction};
use reframe::tree::Node;

fn s(x: &str) -> String {
    x.to_string()
}

fn obj(entries: Vec<(&str, Node)>) -> Node {
    Node::Obj(entries.into_iter().map(|(k, v)| (k.to_string(), v)).collect())
}

fn text(x: &str) -> Node {
    Node::Text(s(x))
}

fn num(x: &str) -> Node {
    Node::Num(s(x))
}

fn get<'a>(doc: &'a Document, path: &str) -> Option<&'a Node> {
    doc.get_data(&FieldPath::parse(path))
}

fn parse_cfg(format: &str, input: &str, output: &str) -> ParseConfig {
    ParseConfig {
        format: Some(s(format)),
        input_field_name: Some(s(input)),
        output_field_name: Some(s(output)),
    }
}

fn publish_cfg(format: &str, input: &str) -> PublishConfig {
    PublishConfig {
        output_format: Some(s(format)),
        input_field_name: Some(s(input)),
        output_field_name: None,
    }
}

const MT103_RAW: &str = "{1:F01BANKDEFFAXXX0000000000}{2:I103BANKDEFFAXXXU3003}{4:\r\n:20:REF123\r\n:23B:CRED\r\n:32A:240719USD1234,56\r\n:50K:/12345678\r\nJOHN DOE\r\n:59:/98765432\r\nJANE SMITH\r\n:71A:OUR\r\n-}";

/// A mapped customer-credit-transfer value that the schema accepts.
fn valid_credit_transfer(reference: &str, amount: &str) -> Node {
    obj(vec![
        (
            "GrpHdr",
            obj(vec![
                ("MsgId", text(reference)),
                ("CreDtTm", text("2024-01-01T00:00:00+00:00")),
                ("NbOfTxs", text("1")),
                ("SttlmInf", obj(vec![("SttlmMtd", text("INDA"))])),
            ]),
        ),
        (
            "CdtTrfTxInf",
            obj(vec![
                (
                    "PmtId",
                    obj(vec![
                        ("InstrId", text(reference)),
                        ("EndToEndId", text(reference)),
                        ("UETR", text("7a562c67-ca16-48ba-b074-65581be6f001")),
                    ]),
                ),
                (
                    "IntrBkSttlmAmt",
                    obj(vec![("@Ccy", text("USD")), ("$value", num(amount))]),
                ),
                ("IntrBkSttlmDt", text("2024-01-01")),
                ("ChrgBr", text("SHAR")),
                (
                    "InstgAgt",
                    obj(vec![("FinInstnId", obj(vec![("BICFI", text("BANKUS33XXX"))]))]),
                ),
                (
                    "InstdAgt",
                    obj(vec![("FinInstnId", obj(vec![("BICFI", text("BANKDEFFXXX"))]))]),
                ),
                ("Dbtr", obj(vec![("Nm", text("ALICE"))])),
                ("DbtrAgt", obj(vec![("FinInstnId", obj(vec![]))])),
                ("CdtrAgt", obj(vec![("FinInstnId", obj(vec![]))])),
                ("Cdtr", obj(vec![("Nm", text("BOB"))])),
            ]),
        ),
    ])
}

fn mapped_document(reference: &str, amount: &str) -> Node {
    obj(vec![("FIToFICstmrCdtTrf", valid_credit_transfer(reference, amount))])
}

#[test]
fn parse_missing_format_is_config_error() {
    let mut doc = Document::from_payload(s(MT103_RAW));
    let cfg = ParseConfig {
        format: None,
        input_field_name: Some(s("payload")),
        output_field_name: Some(s("parsed")),
    };
    match ParserFunction.execute(&mut doc, &cfg) {
        Err(StageError::Config(m)) => assert_eq!(m, "Missing format"),
        _ => panic!("expected a configuration error"),
    }
    assert!(get(&doc, "parsed").is_none());
}

#[test]
fn parse_missing_input_field_is_config_error() {
    let mut doc = Document::from_payload(s(MT103_RAW));
    let cfg = ParseConfig {
        format: Some(s("SwiftMT")),
        input_field_name: None,
        output_field_name: Some(s("parsed")),
    };
    match ParserFunction.execute(&mut doc, &cfg) {
        Err(StageError::Config(m)) => assert_eq!(m, "Missing input_field_name"),
        _ => panic!("expected a configuration error"),
    }
}

#[test]
fn parse_missing_output_field_is_config_error() {
    let mut doc = Document::from_payload(s(MT103_RAW));
    let cfg = ParseConfig {
        format: Some(s("SwiftMT")),
        input_field_name: Some(s("payload")),
        output_field_name: None,
    };
    match ParserFunction.execute(&mut doc, &cfg) {
        Err(StageError::Config(m)) => assert_eq!(m, "Missing output_field_name"),
        _ => panic!("expected a configuration error"),
    }
}

#[test]
fn parse_unsupported_format_names_key_and_writes_nothing() {
    let mut doc = Document::from_payload(s(MT103_RAW));
    let cfg = parse_cfg("Iso8583", "payload", "parsed");
    match ParserFunction.execute(&mut doc, &cfg) {
        Err(StageError::UnsupportedFormat(m)) => {
            assert_eq!(m, "Unsupported format: Iso8583");
            assert!(m.contains("Iso8583"));
        },
        _ => panic!("expected an unsupported-format error"),
    }
    assert!(get(&doc, "parsed").is_none());
}

#[test]
fn parse_malformed_payload_degrades_instead_of_failing() {
    let mut doc = Document::from_payload(s("this is not a wire message"));
    let cfg = parse_cfg("SwiftMT", "payload", "parsed");
    let (status, changes) = ParserFunction.execute(&mut doc, &cfg).expect("stage must succeed");
    assert_eq!(status, 200);
    assert_eq!(changes.len(), 1);
    assert_eq!(changes[0].path, "data.parsed");
    match get(&doc, "parsed") {
        Some(Node::Obj(_)) => {},
        _ => panic!("expected a structured failure object"),
    }
    match get(&doc, "parsed.library_error") {
        Some(Node::Text(m)) => assert!(!m.is_empty()),
        _ => panic!("failure description missing"),
    }
    match get(&doc, "parsed.raw_payload") {
        Some(Node::Text(raw)) => assert_eq!(raw, "this is not a wire message"),
        _ => panic!("raw input missing"),
    }
    match get(&doc, "parsed.format") {
        Some(Node::Text(f)) => assert_eq!(f, "SwiftMT"),
        _ => panic!("format token missing"),
    }
}

#[test]
fn parse_valid_message_stores_structured_fields() {
    let mut doc = Document::from_payload(s(MT103_RAW));
    let cfg = parse_cfg("SwiftMT", "payload", "parsed");
    let (status, changes) = ParserFunction.execute(&mut doc, &cfg).expect("stage must succeed");
    assert_eq!(status, 200);
    assert_eq!(changes.len(), 1);
    match get(&doc, "parsed") {
        Some(Node::Obj(_)) => {},
        _ => panic!("expected a structured tree"),
    }
    assert!(get(&doc, "parsed.library_error").is_none());
    match doc.get_metadata(&FieldPath::parse("SwiftMT.message_type")) {
        Some(Node::Text(mt)) => assert_eq!(mt, "103"),
        _ => panic!("detected message type missing from metadata"),
    }
}

#[test]
fn parse_non_ascii_payload_degrades_with_guard_text() {
    // Block 1 is 25 bytes but begins with multibyte characters; the
    // wire-format parser would slice it at a non-character boundary, so
    // the stage must hold it back and degrade instead.
    let raw = "{1:\u{e9}\u{e9}\u{e9}\u{e9}\u{e9}\u{e9}\u{e9}\u{e9}\u{e9}\u{e9}\u{e9}\u{e9}x}{4:\r\n:20:REF\r\n-}";
    let mut doc = Document::from_payload(s(raw));
    let cfg = parse_cfg("SwiftMT", "payload", "parsed");
    let (status, _) = ParserFunction.execute(&mut doc, &cfg).expect("stage must succeed");
    assert_eq!(status, 200);
    match get(&doc, "parsed.library_error") {
        Some(Node::Text(m)) => assert_eq!(m, "input is not ASCII text"),
        _ => panic!("guard description missing"),
    }
    match get(&doc, "parsed.raw_payload") {
        Some(Node::Text(r)) => assert_eq!(r, raw),
        _ => panic!("raw input missing"),
    }
    match doc.get_metadata(&FieldPath::parse("SwiftMT.message_type")) {
        Some(Node::Text(mt)) => assert_eq!(mt, "unknown"),
        _ => panic!("unknown sentinel missing"),
    }
}

#[test]
fn parse_failure_marks_message_type_unknown() {
    let mut doc = Document::from_payload(s("garbage"));
    let cfg = parse_cfg("SwiftMT", "payload", "parsed");
    ParserFunction.execute(&mut doc, &cfg).expect("stage must succeed");
    match doc.get_metadata(&FieldPath::parse("SwiftMT.message_type")) {
        Some(Node::Text(mt)) => assert_eq!(mt, "unknown"),
        _ => panic!("unknown sentinel missing from metadata"),
    }
}

#[test]
fn parse_reads_text_from_a_data_field() {
    let mut doc = Document::from_payload(s("unused payload"));
    doc.set_data(&FieldPath::parse("incoming"), text("garbage"));
    let cfg = parse_cfg("SwiftMT", "incoming", "parsed");
    ParserFunction.execute(&mut doc, &cfg).expect("stage must succeed");
    match get(&doc, "parsed.raw_payload") {
        Some(Node::Text(raw)) => assert_eq!(raw, "garbage"),
        _ => panic!("the configured input field was not read"),
    }
}

#[test]
fn publish_missing_output_format_is_config_error() {
    let mut doc = Document::from_payload(s(""));
    let cfg = PublishConfig {
        output_format: None,
        input_field_name: Some(s("mapped")),
        output_field_name: None,
    };
    match PublishFunction.execute(&mut doc, &cfg) {
        Err(StageError::Config(m)) => assert_eq!(m, "Missing output_format"),
        _ => panic!("expected a configuration error"),
    }
}

#[test]
fn publish_missing_input_field_name_is_config_error() {
    let mut doc = Document::from_payload(s(""));
    let cfg = PublishConfig {
        output_format: Some(s("MT103.Document")),
        input_field_name: None,
        output_field_name: None,
    };
    match PublishFunction.execute(&mut doc, &cfg) {
        Err(StageError::Config(m)) => assert_eq!(m, "Missing input_field_name"),
        _ => panic!("expected a configuration error"),
    }
}

#[test]
fn publish_unknown_format_names_key_and_writes_nothing() {
    let mut doc = Document::from_payload(s(""));
    doc.set_data(&FieldPath::parse("mapped"), mapped_document("REF123", "100.0"));
    let cfg = publish_cfg("pain.001.001.09", "mapped");
    match PublishFunction.execute(&mut doc, &cfg) {
        Err(StageError::UnsupportedFormat(m)) => {
            assert_eq!(m, "Unsupported output format: pain.001.001.09");
            assert!(m.contains("pain.001.001.09"));
        },
        _ => panic!("expected an unsupported-format error"),
    }
    assert!(get(&doc, "result").is_none());
    assert!(get(&doc, "results").is_none());
}

#[test]
fn publish_missing_input_field_names_it() {
    let mut doc = Document::from_payload(s(""));
    let cfg = publish_cfg("MT103.Document", "mapped");
    match PublishFunction.execute(&mut doc, &cfg) {
        Err(StageError::Validation(m)) => assert!(m.contains("mapped")),
        _ => panic!("expected a validation error"),
    }
    assert!(get(&doc, "result").is_none());
}

#[test]
fn publish_missing_subfield_names_it() {
    let mut doc = Document::from_payload(s(""));
    doc.set_data(
        &FieldPath::parse("mapped"),
        obj(vec![("SomethingElse", text("x"))]),
    );
    let cfg = publish_cfg("MT103.Document", "mapped");
    match PublishFunction.execute(&mut doc, &cfg) {
        Err(StageError::Validation(m)) => assert!(m.contains("FIToFICstmrCdtTrf")),
        _ => panic!("expected a validation error"),
    }
    assert!(get(&doc, "result").is_none());
}

#[test]
fn publish_valid_document_renders_xml() {
    let mut doc = Document::from_payload(s(""));
    doc.set_data(&FieldPath::parse("mapped"), mapped_document("REF123", "100.0"));
    let cfg = publish_cfg("MT103.Document", "mapped");
    let (status, changes) = PublishFunction.execute(&mut doc, &cfg).expect("publish must succeed");
    assert_eq!(status, 200);
    assert_eq!(changes.len(), 1);
    assert_eq!(changes[0].path, "data.result");
    match get(&doc, "result") {
        Some(Node::Text(xml)) => {
            assert!(xml.contains("<GrpHdr>"));
            assert!(xml.contains("USD"));
            assert!(xml.contains("100"));
            assert!(xml.contains("REF123"));
            assert!(xml.starts_with("<FIToFICstmrCdtTrf"));
        },
        _ => panic!("expected XML text at the reserved result field"),
    }
}

#[test]
fn publish_header_renders_xml() {
    let mut doc = Document::from_payload(s(""));
    doc.set_data(
        &FieldPath::parse("mapped_header"),
        obj(vec![
            ("Fr", obj(vec![])),
            ("To", obj(vec![])),
            ("BizMsgIdr", text("MSGID1")),
            ("MsgDefIdr", text("pacs.008.001.08")),
            ("BizSvc", text("swift.cbprplus.02")),
            ("CreDt", text("2024-01-01T00:00:00+00:00")),
        ]),
    );
    let cfg = publish_cfg("MT103.Header", "mapped_header");
    let (status, _) = PublishFunction.execute(&mut doc, &cfg).expect("publish must succeed");
    assert_eq!(status, 200);
    match get(&doc, "result") {
        Some(Node::Text(xml)) => assert!(xml.contains("MSGID1")),
        _ => panic!("expected XML text at the reserved result field"),
    }
}

#[test]
fn publish_invalid_document_is_validation_error() {
    let mut doc = Document::from_payload(s(""));
    doc.set_data(
        &FieldPath::parse("mapped"),
        obj(vec![("FIToFICstmrCdtTrf", obj(vec![("GrpHdr", text("wrong"))]))]),
    );
    let cfg = publish_cfg("MT103.Document", "mapped");
    match PublishFunction.execute(&mut doc, &cfg) {
        Err(StageError::Validation(m)) => {
            assert!(m.starts_with("FIToFICustomerCreditTransferV08 deserialization failed: "));
            assert!(m.len() > "FIToFICustomerCreditTransferV08 deserialization failed: ".len());
        },
        _ => panic!("expected a validation error"),
    }
    assert!(get(&doc, "result").is_none());
}

#[test]
fn publish_invalid_header_names_the_header_schema() {
    let mut doc = Document::from_payload(s(""));
    doc.set_data(
        &FieldPath::parse("mapped_header"),
        obj(vec![("Fr", text("not a party"))]),
    );
    let cfg = publish_cfg("MT103.Header", "mapped_header");
    match PublishFunction.execute(&mut doc, &cfg) {
        Err(StageError::Validation(m)) => {
            assert!(m.starts_with("AppHdr deserialization failed: "));
        },
        _ => panic!("expected a validation error"),
    }
    assert!(get(&doc, "result").is_none());
}

#[test]
fn publish_twice_gives_identical_xml() {
    let mut doc = Document::from_payload(s(""));
    doc.set_data(&FieldPath::parse("mapped"), mapped_document("REF123", "100.0"));
    let cfg = publish_cfg("MT103.Document", "mapped");
    PublishFunction.execute(&mut doc, &cfg).expect("first publish must succeed");
    let first = match get(&doc, "result") {
        Some(Node::Text(xml)) => xml.clone(),
        _ => panic!("expected XML"),
    };
    PublishFunction.execute(&mut doc, &cfg).expect("second publish must succeed");
    let second = match get(&doc, "result") {
        Some(Node::Text(xml)) => xml.clone(),
        _ => panic!("expected XML"),
    };
    assert_eq!(first, second);
}

#[test]
fn fanout_all_succeed_in_order() {
    let mut doc = Document::from_payload(s(""));
    doc.set_data(
        &FieldPath::parse("mapped"),
        obj(vec![(
            "FIToFICstmrCdtTrf",
            Node::List(vec![
                valid_credit_transfer("FIRST1", "1.0"),
                valid_credit_transfer("SECOND2", "2.0"),
            ]),
        )]),
    );
    let cfg = publish_cfg("MT103.Document", "mapped");
    let (status, changes) = PublishFunction.execute(&mut doc, &cfg).expect("fan-out must succeed");
    assert_eq!(status, 200);
    assert_eq!(changes.len(), 1);
    assert_eq!(changes[0].path, "data.results");
    match get(&doc, "results") {
        Some(Node::List(items)) => {
            assert_eq!(items.len(), 2);
            match (&items[0], &items[1]) {
                (Node::Text(a), Node::Text(b)) => {
                    assert!(a.contains("FIRST1"));
                    assert!(b.contains("SECOND2"));
                },
                _ => panic!("expected XML texts"),
            }
        },
        _ => panic!("expected the reserved results list"),
    }
    assert!(get(&doc, "result").is_none());
}

#[test]
fn fanout_one_failure_writes_nothing_and_lists_index() {
    let mut doc = Document::from_payload(s(""));
    doc.set_data(
        &FieldPath::parse("mapped"),
        obj(vec![(
            "FIToFICstmrCdtTrf",
            Node::List(vec![
                valid_credit_transfer("FIRST1", "1.0"),
                obj(vec![("GrpHdr", text("wrong"))]),
                valid_credit_transfer("THIRD3", "3.0"),
            ]),
        )]),
    );
    let cfg = publish_cfg("MT103.Document", "mapped");
    match PublishFunction.execute(&mut doc, &cfg) {
        Err(StageError::Validation(m)) => assert!(m.contains("index 1")),
        _ => panic!("expected the combined validation error"),
    }
    assert!(get(&doc, "results").is_none());
    assert!(get(&doc, "result").is_none());
}

#[test]
fn parse_treats_non_text_input_field_as_empty() {
    let mut doc = Document::from_payload(s("unused payload"));
    doc.set_data(&FieldPath::parse("incoming"), obj(vec![("k", text("v"))]));
    let cfg = parse_cfg("SwiftMT", "incoming", "parsed");
    ParserFunction.execute(&mut doc, &cfg).expect("stage must succeed");
    match get(&doc, "parsed.raw_payload") {
        Some(Node::Text(raw)) => assert_eq!(raw, ""),
        _ => panic!("expected the empty-input fallback"),
    }
}

#[test]
fn parse_unescapes_newlines_in_the_payload() {
    let mut doc = Document::from_payload(s("line one\nline two"));
    let cfg = parse_cfg("SwiftMT", "payload", "parsed");
    ParserFunction.execute(&mut doc, &cfg).expect("stage must succeed");
    match get(&doc, "parsed.raw_payload") {
        Some(Node::Text(raw)) => assert_eq!(raw, "line one
line two"),
        _ => panic!("expected the unescaped input in the failure object"),
    }
}

#[test]
fn fanout_empty_batch_writes_empty_list() {
    let mut doc = Document::from_payload(s(""));
    doc.set_data(
        &FieldPath::parse("mapped"),
        obj(vec![("FIToFICstmrCdtTrf", Node::List(vec![]))]),
    );
    let cfg = publish_cfg("MT103.Document", "mapped");
    let (status, _) = PublishFunction.execute(&mut doc, &cfg).expect("empty fan-out must succeed");
    assert_eq!(status, 200);
    match get(&doc, "results") {
        Some(Node::List(items)) => assert!(items.is_empty()),
        _ => panic!("expected an empty results list"),
    }
}

#[test]
fn fanout_failures_are_listed_in_index_order() {
    let mut doc = Document::from_payload(s(""));
    doc.set_data(
        &FieldPath::parse("mapped"),
        obj(vec![(
            "FIToFICstmrCdtTrf",
            Node::List(vec![
                obj(vec![("GrpHdr", text("bad"))]),
                valid_credit_transfer("GOOD1", "1.0"),
                obj(vec![("GrpHdr", text("also bad"))]),
            ]),
        )]),
    );
    let cfg = publish_cfg("MT103.Document", "mapped");
    match PublishFunction.execute(&mut doc, &cfg) {
        Err(StageError::Validation(m)) => {
            let first = m.find("index 0:").expect("first failing index missing");
            let second = m.find("index 2:").expect("second failing index missing");
            assert!(first < second);
            assert!(!m.contains("index 1:"));
            assert!(m.contains("FIToFICustomerCreditTransferV08 deserialization failed: "));
        },
        _ => panic!("expected the combined validation error"),
    }
    assert!(get(&doc, "results").is_none());
}

#[test]
fn publish_honours_configured_output_field() {
    let mut doc = Document::from_payload(s(""));
    doc.set_data(&FieldPath::parse("mapped"), mapped_document("REF123", "100.0"));
    let cfg = PublishConfig {
        output_format: Some(s("MT103.Document")),
        input_field_name: Some(s("mapped")),
        output_field_name: Some(s("custom_out")),
    };
    PublishFunction.execute(&mut doc, &cfg).expect("publish must succeed");
    assert!(get(&doc, "custom_out").is_some());
    assert!(get(&doc, "result").is_none());
}
