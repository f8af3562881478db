use invoice_scan::errors::InvoiceError;
use invoice_scan::stream::accumulate_chunk;
use invoice_scan::stream::assemble_answer;

fn chunks(texts: &[&str]) -> Vec<String> {
    texts.iter().map(|t| t.to_string()).collect()
}

#[test]
fn response_chunks_accumulate_in_order() {
    let r = assemble_answer(&chunks(&["{\"response\":\"A\"}", "{\"response\":\"B\"}"]));
    assert_eq!(r.unwrap(), "AB");
}

#[test]
fn empty_stream_gives_empty_answer() {
    let r = assemble_answer(&chunks(&[]));
    assert_eq!(r.unwrap(), "");
}

#[test]
fn error_chunk_stops_the_stream() {
    let r = assemble_answer(&chunks(&[
        "{\"response\":\"A\"}",
        "{\"error\":\"quota exceeded\"}",
        "{\"response\":\"B\"}",
    ]));
    match r {
        Err(InvoiceError::Api(msg)) => assert_eq!(msg, "quota exceeded"),
        other => panic!("expected an api error, got {:?}", other),
    }
}

#[test]
fn invalid_chunk_stops_the_stream() {
    let r = assemble_answer(&chunks(&["{\"response\":\"A\"}", "not json"]));
    match r {
        Err(InvoiceError::InvalidChunk(c)) => assert_eq!(c, "not json"),
        other => panic!("expected an invalid-chunk error, got {:?}", other),
    }
}

#[test]
fn chunk_without_known_fields_is_ignored() {
    let r = assemble_answer(&chunks(&[
        "{\"response\":\"A\"}",
        "{\"done\":true}",
        "{\"response\":\"B\"}",
    ]));
    assert_eq!(r.unwrap(), "AB");
}

#[test]
fn non_string_response_field_is_ignored() {
    let r = assemble_answer(&chunks(&["{\"response\":5}"]));
    assert_eq!(r.unwrap(), "");
}

#[test]
fn response_wins_over_error_in_one_chunk() {
    let r = assemble_answer(&chunks(&["{\"response\":\"A\",\"error\":\"x\"}"]));
    assert_eq!(r.unwrap(), "A");
}

#[test]
fn one_chunk_appends_to_the_accumulator() {
    let acc = accumulate_chunk("start:".to_string(), "{\"response\":\" more\"}").unwrap();
    assert_eq!(acc, "start: more");
}

#[test]
fn one_error_chunk_fails_the_accumulator() {
    let r = accumulate_chunk(String::new(), "{\"error\":\"boom\"}");
    match r {
        Err(InvoiceError::Api(msg)) => assert_eq!(msg, "boom"),
        other => panic!("expected an api error, got {:?}", other),
    }
}
