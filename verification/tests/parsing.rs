use invoice_scan::errors::InvoiceError;
use invoice_scan::parse::parse_invoice;
use invoice_scan::parse::strip_occurrences;
use invoice_scan::parse::trim_text;
use invoice_scan::stream::assemble_answer;

#[test]
fn fenced_answer_is_cleaned_and_parsed() {
    let answer = "```json\n{\"payerName\":\"Acme\",\"payerInn\":\"7701234567\",\
        \"payerAddress\":\"Main st 1\",\"receiverName\":\"Widget LLC\",\
        \"receiverInn\":\"7707654321\",\"receiverAddress\":\"Side st 2\",\
        \"receiverAccount\":\"40702810900000000001\",\"receiverBankName\":\"Big Bank\",\
        \"receiverBankBic\":\"044525225\",\"receiverBankCorrAccount\":\"30101810400000000225\",\
        \"amount\":10000.0,\"purpose\":\"services\"}\n```";
    let inv = parse_invoice(answer).unwrap();
    assert_eq!(inv.payer_name, "Acme");
    assert_eq!(inv.payer_inn, "7701234567");
    assert_eq!(inv.payer_address, "Main st 1");
    assert_eq!(inv.receiver_name, "Widget LLC");
    assert_eq!(inv.receiver_inn, "7707654321");
    assert_eq!(inv.receiver_address, "Side st 2");
    assert_eq!(inv.receiver_account, "40702810900000000001");
    assert_eq!(inv.receiver_bank_name, "Big Bank");
    assert_eq!(inv.receiver_bank_bic, "044525225");
    assert_eq!(inv.receiver_bank_corr_account, "30101810400000000225");
    assert_eq!(inv.amount, "10000.0");
    assert_eq!(inv.purpose, "services");
}

#[test]
fn invalid_answer_reports_reason_and_cleaned_text() {
    let r = parse_invoice("not json");
    match r {
        Err(InvoiceError::Schema(reason, cleaned)) => {
            assert!(!reason.is_empty());
            assert_eq!(cleaned, "not json");
        },
        other => panic!("expected a schema error, got {:?}", other),
    }
}

#[test]
fn missing_fields_take_their_defaults() {
    let inv = parse_invoice("{\"payerName\":\"X\"}").unwrap();
    assert_eq!(inv.payer_name, "X");
    assert_eq!(inv.payer_inn, "");
    assert_eq!(inv.payer_address, "");
    assert_eq!(inv.receiver_name, "");
    assert_eq!(inv.receiver_inn, "");
    assert_eq!(inv.receiver_address, "");
    assert_eq!(inv.receiver_account, "");
    assert_eq!(inv.receiver_bank_name, "");
    assert_eq!(inv.receiver_bank_bic, "");
    assert_eq!(inv.receiver_bank_corr_account, "");
    assert_eq!(inv.amount, "0.0");
    assert_eq!(inv.purpose, "");
}

#[test]
fn empty_object_is_all_defaults() {
    let inv = parse_invoice("{}").unwrap();
    assert_eq!(inv.payer_name, "");
    assert_eq!(inv.amount, "0.0");
}

#[test]
fn non_string_field_is_rejected() {
    let r = parse_invoice("{\"payerName\":5}");
    match r {
        Err(InvoiceError::Schema(reason, _)) => assert!(reason.contains("payerName")),
        other => panic!("expected a schema error, got {:?}", other),
    }
}

#[test]
fn non_numeric_amount_is_rejected() {
    let r = parse_invoice("{\"amount\":\"10000.0\"}");
    match r {
        Err(InvoiceError::Schema(reason, _)) => assert!(reason.contains("amount")),
        other => panic!("expected a schema error, got {:?}", other),
    }
}

#[test]
fn non_object_answer_is_rejected() {
    let r = parse_invoice("[1, 2]");
    assert!(matches!(r, Err(InvoiceError::Schema(_, _))));
}

#[test]
fn integer_amount_keeps_its_text() {
    let inv = parse_invoice("{\"amount\":500}").unwrap();
    assert_eq!(inv.amount, "500");
}

#[test]
fn fences_are_stripped_everywhere() {
    assert_eq!(strip_occurrences("a```jsonb```c", "```json"), "ab```c");
    assert_eq!(strip_occurrences("``````", "```"), "");
    assert_eq!(strip_occurrences("````", "```"), "`");
    assert_eq!(strip_occurrences("no fences", "```"), "no fences");
}

#[test]
fn trim_removes_surrounding_whitespace() {
    assert_eq!(trim_text(" \n\t x y \r\n "), "x y");
    assert_eq!(trim_text("   "), "");
    assert_eq!(trim_text("x"), "x");
}

#[test]
fn streamed_answer_parses_end_to_end() {
    let chunks = vec![
        "{\"response\":\"{\\\"payerName\\\":\\\"X\\\"\"}".to_string(),
        "{\"response\":\"}\"}".to_string(),
    ];
    let answer = assemble_answer(&chunks).unwrap();
    assert_eq!(answer, "{\"payerName\":\"X\"}");
    let inv = parse_invoice(&answer).unwrap();
    assert_eq!(inv.payer_name, "X");
    assert_eq!(inv.payer_inn, "");
    assert_eq!(inv.purpose, "");
    assert_eq!(inv.amount, "0.0");
}
