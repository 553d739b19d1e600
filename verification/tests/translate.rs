use pdf_translator::config::Config;
use pdf_translator::extract::PdfReader;
use pdf_translator::output::render_output;
use pdf_translator::translate::ParseError;
use pdf_translator::translate::TranslateInput;
use pdf_translator::translate::TranslationSession;
use pdf_translator::translate::bearer_token_header;
use pdf_translator::translate::or_default_language;
use pdf_translator::translate::parse_response;

#[test]
fn translated_text_is_extracted_from_response() {
    let body = "{\"data\":{\"translations\":[{\"translatedText\":\"Hej\"}]}}";
    assert_eq!(parse_response(body).unwrap(), "Hej");
}

#[test]
fn missing_translation_field_yields_empty_string() {
    assert_eq!(parse_response("{}").unwrap(), "");
    assert_eq!(parse_response("{\"data\":{}}").unwrap(), "");
    assert_eq!(parse_response("{\"data\":{\"translations\":[]}}").unwrap(), "");
    assert_eq!(
        parse_response("{\"data\":{\"translations\":[{\"detectedSourceLanguage\":\"en\"}]}}")
            .unwrap(),
        ""
    );
}

#[test]
fn non_string_translation_field_yields_empty_string() {
    assert_eq!(
        parse_response("{\"data\":{\"translations\":[{\"translatedText\":7}]}}").unwrap(),
        ""
    );
}

#[test]
fn malformed_response_is_an_error() {
    let r = parse_response("this is not json");
    assert!(matches!(r, Err(ParseError::MalformedResponse)));
}

#[test]
fn bearer_header_prefixes_the_token() {
    assert_eq!(bearer_token_header("abc123"), "Bearer abc123");
    assert_eq!(bearer_token_header(""), "Bearer ");
}

#[test]
fn language_codes_fall_back_to_defaults() {
    assert_eq!(or_default_language(String::new(), "en"), "en");
    assert_eq!(or_default_language("de".to_string(), "en"), "de");
}

#[test]
fn session_builds_requests_from_each_line_in_order() {
    let input = TranslateInput {
        formatted_content: vec![(0, "one".to_string()), (1, "two".to_string())],
        source: "en".to_string(),
        target: "sv".to_string(),
    };
    let config = Config::new("k".to_string(), "p".to_string(), "t".to_string());
    let session = TranslationSession::new(input);
    assert!(!session.is_done());
    let req = session.current_request(&config);
    assert_eq!(req.q, "one");
    assert_eq!(req.source, "en");
    assert_eq!(req.target, "sv");
    assert_eq!(req.format, "text");
    assert_eq!(req.key, "k");
}

fn uppercase_stub_response(q: &str) -> String {
    let mut upper = String::new();
    for c in q.chars() {
        for u in c.to_uppercase() {
            upper.push(u);
        }
    }
    format!(
        "{{\"data\":{{\"translations\":[{{\"translatedText\":\"{}\"}}]}}}}",
        upper
    )
}

#[test]
fn end_to_end_uppercase_stub_produces_expected_output() {
    let document = PdfReader::new("Hello\nWorld\n").get_content();
    let expected_document: Vec<(usize, String)> =
        vec![(0, "Hello".to_string()), (1, "World".to_string())];
    assert_eq!(document, expected_document);

    let input = TranslateInput {
        formatted_content: document,
        source: "en".to_string(),
        target: "sv".to_string(),
    };
    let config = Config::new("key".to_string(), "project".to_string(), "token".to_string());
    let mut session = TranslationSession::new(input);
    while !session.is_done() {
        let req = session.current_request(&config);
        let body = uppercase_stub_response(&req.q);
        session.accept_response(&body).unwrap();
    }
    let results = session.into_results();
    let output = render_output(&results);
    assert_eq!(output, "0: HELLO\n1: WORLD\n");
}

#[test]
fn malformed_response_leaves_the_session_unchanged() {
    let input = TranslateInput {
        formatted_content: vec![(0, "line".to_string())],
        source: "en".to_string(),
        target: "sv".to_string(),
    };
    let mut session = TranslationSession::new(input);
    let r = session.accept_response("oops");
    assert!(matches!(r, Err(ParseError::MalformedResponse)));
    assert!(!session.is_done());
}
