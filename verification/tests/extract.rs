use pdf_translator::extract::PdfReader;
use pdf_translator::extract::sibling_txt_path;

#[test]
fn test_read_basic_pdf() {
    let pdf_reader = PdfReader::new("Hello World!\n\u{c}\n");
    let content = pdf_reader.get_content();
    let correct_content: Vec<(usize, String)> =
        vec![(0, "Hello World!".to_string()), (1, "\u{c}".to_string())];
    assert_eq!(content, correct_content);
}

#[test]
fn empty_text_yields_empty_document() {
    let content = PdfReader::new("").get_content();
    assert!(content.is_empty());
}

#[test]
fn document_numbering_matches_position() {
    let content = PdfReader::new("first\nsecond\nthird").get_content();
    assert_eq!(content.len(), 3);
    for (i, record) in content.iter().enumerate() {
        assert_eq!(record.0, i);
    }
    assert_eq!(content[0].1, "first");
    assert_eq!(content[1].1, "second");
    assert_eq!(content[2].1, "third");
}

#[test]
fn carriage_return_line_endings_are_stripped() {
    let content = PdfReader::new("a\r\nb\r\n").get_content();
    let expected: Vec<(usize, String)> = vec![(0, "a".to_string()), (1, "b".to_string())];
    assert_eq!(content, expected);
}

#[test]
fn blank_lines_are_kept_as_records() {
    let content = PdfReader::new("\n\n").get_content();
    let expected: Vec<(usize, String)> = vec![(0, String::new()), (1, String::new())];
    assert_eq!(content, expected);
}

#[test]
fn tail_without_newline_is_a_record() {
    let content = PdfReader::new("only").get_content();
    let expected: Vec<(usize, String)> = vec![(0, "only".to_string())];
    assert_eq!(content, expected);
}

#[test]
fn sibling_path_replaces_pdf_extension() {
    assert_eq!(sibling_txt_path("document.pdf"), "document.txt");
    assert_eq!(sibling_txt_path("dir/report.pdf"), "dir/report.txt");
    assert_eq!(sibling_txt_path("noextension"), "noextension");
    assert_eq!(sibling_txt_path("a.pdf.pdf"), "a.txt.txt");
}
