use pdf_translator::output::render_output;
use pdf_translator::text::usize_to_string;

#[test]
fn indices_render_in_decimal() {
    assert_eq!(usize_to_string(0), "0");
    assert_eq!(usize_to_string(9), "9");
    assert_eq!(usize_to_string(10), "10");
    assert_eq!(usize_to_string(12345), "12345");
}

#[test]
fn render_writes_one_indexed_line_per_record() {
    let records: Vec<(usize, String)> = vec![
        (0, "alpha".to_string()),
        (1, "beta".to_string()),
        (2, String::new()),
    ];
    assert_eq!(render_output(&records), "0: alpha\n1: beta\n2: \n");
}

#[test]
fn render_keeps_the_records_own_indices_and_order() {
    let records: Vec<(usize, String)> = vec![(7, "x".to_string()), (3, "y".to_string())];
    assert_eq!(render_output(&records), "7: x\n3: y\n");
}

#[test]
fn render_of_no_records_is_empty() {
    let records: Vec<(usize, String)> = Vec::new();
    assert_eq!(render_output(&records), "");
}
