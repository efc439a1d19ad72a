use reframe::document::Document;
use reframe::error::StageError;
use reframe::path::FieldPath;
use reframe::publish::{PublishConfig, PublishFunction};
use reframe::tree::Node;

fn s(x: &str) -> String {
    x.to_string()
}

fn obj(entries: Vec<(&str, Node)>) -> Node {
    Node::Obj(entries.into_iter().map(|(k, v)| (k.to_string(), v)).collect())
}

fn text(x: &str) -> Node {
    Node::Text(s(x))
}

fn amount(ccy: &str, value: &str) -> Node {
    obj(vec![("@Ccy", text(ccy)), ("$value", Node::Num(s(value)))])
}

fn agent_with_bic(bic: &str) -> Node {
    obj(vec![("FinInstnId", obj(vec![("BICFI", text(bic))]))])
}

fn agent_plain() -> Node {
    obj(vec![("FinInstnId", obj(vec![]))])
}

fn case_assignment(id: &str) -> Node {
    obj(vec![
        ("Id", text(id)),
        ("Assgnr", obj(vec![])),
        ("Assgne", obj(vec![])),
        ("CreDtTm", text("2024-01-01T00:00:00+00:00")),
    ])
}

fn publish(doc: &mut Document, format: &str, input: &str) -> Result<(usize, Vec<reframe::document::Change>), StageError> {
    let cfg = PublishConfig {
        output_format: Some(s(format)),
        input_field_name: Some(s(input)),
        output_field_name: None,
    };
    PublishFunction.execute(doc, &cfg)
}

fn result_xml(doc: &Document) -> String {
    match doc.get_data(&FieldPath::parse("result")) {
        Some(Node::Text(xml)) => xml.clone(),
        _ => panic!("expected XML text at the reserved result field"),
    }
}

#[test]
fn financial_institution_credit_transfer_row_renders() {
    let mut doc = Document::from_payload(s(""));
    doc.set_data(
        &FieldPath::parse("mapped"),
        obj(vec![(
            "FICdtTrf",
            obj(vec![
                (
                    "GrpHdr",
                    obj(vec![
                        ("MsgId", text("FI-MSG-1")),
                        ("CreDtTm", text("2024-01-01T00:00:00+00:00")),
                        ("NbOfTxs", text("1")),
                        ("SttlmInf", obj(vec![("SttlmMtd", text("INDA"))])),
                    ]),
                ),
                (
                    "CdtTrfTxInf",
                    obj(vec![
                        (
                            "PmtId",
                            obj(vec![
                                ("InstrId", text("FI-REF-1")),
                                ("EndToEndId", text("FI-REF-1")),
                                ("UETR", text("7a562c67-ca16-48ba-b074-65581be6f002")),
                            ]),
                        ),
                        ("IntrBkSttlmAmt", amount("EUR", "250.0")),
                        ("IntrBkSttlmDt", text("2024-01-01")),
                        ("InstgAgt", agent_with_bic("BANKUS33XXX")),
                        ("InstdAgt", agent_with_bic("BANKDEFFXXX")),
                        ("Dbtr", agent_plain()),
                        ("Cdtr", agent_plain()),
                    ]),
                ),
            ]),
        )]),
    );
    publish(&mut doc, "pacs.009.001.08", "mapped").expect("pacs.009 must publish");
    let xml = result_xml(&doc);
    assert!(xml.starts_with("<FICdtTrf"));
    assert!(xml.contains("FI-REF-1"));
    assert!(xml.contains("EUR"));
}

#[test]
fn payment_cancellation_request_row_renders() {
    let mut doc = Document::from_payload(s(""));
    doc.set_data(
        &FieldPath::parse("mapped"),
        obj(vec![(
            "FIToFIPmtCxlReq",
            obj(vec![
                ("Assgnmt", case_assignment("CXL-ASSIGN-1")),
                (
                    "Undrlyg",
                    obj(vec![(
                        "TxInf",
                        obj(vec![
                            (
                                "Case",
                                obj(vec![("Id", text("CASE-1")), ("Cretr", obj(vec![]))]),
                            ),
                            (
                                "OrgnlGrpInf",
                                obj(vec![
                                    ("OrgnlMsgId", text("ORIG-MSG-1")),
                                    ("OrgnlMsgNmId", text("pacs.008.001.08")),
                                ]),
                            ),
                            ("OrgnlEndToEndId", text("ORIG-REF-1")),
                            ("OrgnlUETR", text("7a562c67-ca16-48ba-b074-65581be6f003")),
                            ("OrgnlIntrBkSttlmAmt", amount("USD", "99.5")),
                            ("OrgnlIntrBkSttlmDt", text("2024-01-01")),
                            ("CxlRsnInf", obj(vec![("Rsn", obj(vec![]))])),
                        ]),
                    )]),
                ),
            ]),
        )]),
    );
    publish(&mut doc, "camt.056.001.08", "mapped").expect("camt.056 must publish");
    let xml = result_xml(&doc);
    assert!(xml.starts_with("<FIToFIPmtCxlReq"));
    assert!(xml.contains("CXL-ASSIGN-1"));
    assert!(xml.contains("ORIG-REF-1"));
}

#[test]
fn notification_to_receive_row_renders() {
    let mut doc = Document::from_payload(s(""));
    doc.set_data(
        &FieldPath::parse("mapped"),
        obj(vec![(
            "NtfctnToRcv",
            obj(vec![
                (
                    "GrpHdr",
                    obj(vec![
                        ("MsgId", text("NTF-MSG-1")),
                        ("CreDtTm", text("2024-01-01T00:00:00+00:00")),
                    ]),
                ),
                (
                    "Ntfctn",
                    obj(vec![
                        ("Id", text("NTF-1")),
                        (
                            "Itm",
                            Node::List(vec![obj(vec![
                                ("Id", text("ITEM-1")),
                                ("Amt", amount("GBP", "10.0")),
                            ])]),
                        ),
                    ]),
                ),
            ]),
        )]),
    );
    publish(&mut doc, "camt.057.001.06", "mapped").expect("camt.057 must publish");
    let xml = result_xml(&doc);
    assert!(xml.starts_with("<NtfctnToRcv"));
    assert!(xml.contains("NTF-MSG-1"));
    assert!(xml.contains("ITEM-1"));
}

#[test]
fn resolution_of_investigation_row_renders() {
    let mut doc = Document::from_payload(s(""));
    doc.set_data(
        &FieldPath::parse("mapped"),
        obj(vec![(
            "RsltnOfInvstgtn",
            obj(vec![
                ("Assgnmt", case_assignment("RSL-ASSIGN-1")),
                ("Sts", obj(vec![])),
                (
                    "CxlDtls",
                    obj(vec![(
                        "TxInfAndSts",
                        obj(vec![
                            ("CxlStsId", text("STS-1")),
                            (
                                "RslvdCase",
                                obj(vec![("Id", text("CASE-9")), ("Cretr", obj(vec![]))]),
                            ),
                            (
                                "OrgnlGrpInf",
                                obj(vec![
                                    ("OrgnlMsgId", text("ORIG-MSG-9")),
                                    ("OrgnlMsgNmId", text("pacs.008.001.08")),
                                ]),
                            ),
                            ("OrgnlUETR", text("7a562c67-ca16-48ba-b074-65581be6f004")),
                        ]),
                    )]),
                ),
            ]),
        )]),
    );
    publish(&mut doc, "camt.029.001.09", "mapped").expect("camt.029 must publish");
    let xml = result_xml(&doc);
    assert!(xml.starts_with("<RsltnOfInvstgtn"));
    assert!(xml.contains("RSL-ASSIGN-1"));
    assert!(xml.contains("STS-1"));
}

#[test]
fn each_row_rejects_a_value_of_the_wrong_shape() {
    for format in [
        "MT103.Document",
        "pacs.009.001.08",
        "camt.056.001.08",
        "camt.057.001.06",
        "camt.029.001.09",
    ] {
        let mut doc = Document::from_payload(s(""));
        let subfield = match format {
            "MT103.Document" => "FIToFICstmrCdtTrf",
            "pacs.009.001.08" => "FICdtTrf",
            "camt.056.001.08" => "FIToFIPmtCxlReq",
            "camt.057.001.06" => "NtfctnToRcv",
            _ => "RsltnOfInvstgtn",
        };
        doc.set_data(
            &FieldPath::parse("mapped"),
            obj(vec![(subfield, text("not a structure"))]),
        );
        match publish(&mut doc, format, "mapped") {
            Err(StageError::Validation(_)) => {},
            _ => panic!("row {format} accepted a value of the wrong shape"),
        }
        assert!(doc.get_data(&FieldPath::parse("result")).is_none());
    }
}
