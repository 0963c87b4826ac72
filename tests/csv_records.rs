use house_price_predictor::csv::{csv_records, header_and_rows, split_on, unquote_field};
use house_price_predictor::error::PipelineError;

fn b(s: &str) -> Vec<u8> {
    s.as_bytes().to_vec()
}

#[test]
fn split_on_keeps_empty_pieces() {
    assert_eq!(split_on(&b("a,,b,"), b','), vec![b("a"), b(""), b("b"), b("")]);
    assert_eq!(split_on(&b(""), b','), vec![b("")]);
}

#[test]
fn unquote_strips_surrounding_quotes_only() {
    assert_eq!(unquote_field(&b("\"crim\"")), b("crim"));
    assert_eq!(unquote_field(&b("\"")), b("\""));
    assert_eq!(unquote_field(&b("0.5")), b("0.5"));
}

#[test]
fn records_skip_blank_lines_and_carriage_returns() {
    let text = b("\"a\",\"b\"\r\n1,2\r\n\r\n3,4\n");
    let r = csv_records(&text);
    assert_eq!(r, vec![vec![b("a"), b("b")], vec![b("1"), b("2")], vec![b("3"), b("4")]]);
}

#[test]
fn header_and_rows_split_the_records() {
    let text = b("\"crim\",\"medv\"\n0.00632,24\n0.02731,21.6\n");
    let (h, rows) = header_and_rows(&text).unwrap();
    assert_eq!(h, vec![b("crim"), b("medv")]);
    assert_eq!(rows, vec![vec![b("0.00632"), b("24")], vec![b("0.02731"), b("21.6")]]);
}

#[test]
fn header_and_rows_rejects_ragged_or_empty_text() {
    assert_eq!(header_and_rows(&b("a,b\n1,2\n3\n")), Err(PipelineError::Parse));
    assert_eq!(header_and_rows(&b("\n\r\n")), Err(PipelineError::Parse));
}
