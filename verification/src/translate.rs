//! The translation client's verified half: the request built for each line,
//! the reading of each response, and the session state that submits lines in
//! order and keeps one result per line, index for index.  The network call
//! itself happens outside the library; the session takes each response body
//! as a plain string.

use crate::config::Config;
use crate::json::json_string_at;
use crate::json::json_string_at_path;
use crate::json::json_wellformed;
use vstd::prelude::*;
use vstd::string::StringExecFns;

verus! {

/// Arguments of one translation run.
pub struct Args {
    pub file_path: String,
    pub source: String,
    pub target: String,
}

/// A whole translation request: the extracted document and the two language
/// codes.
pub struct TranslateInput {
    pub formatted_content: Vec<(usize, String)>,
    pub source: String,
    pub target: String,
}

/// The fields of the payload sent to the translation endpoint for one line.
pub struct TranslateRequest {
    pub q: String,
    pub source: String,
    pub target: String,
    pub format: String,
    pub key: String,
}

/// Failure to read a translation response.
#[derive(Clone, Copy, Debug, PartialEq, Eq, Structural)]
pub enum ParseError {
    /// The response body is not a JSON document.
    MalformedResponse,
}

/// The JSON Pointer path of the translated text inside a response: the
/// first translation under the response's data field.
pub open spec fn spec_translated_text_path() -> Seq<char> {
    "/data/translations/0/translatedText"@
}

/// The translation a well-formed response carries: the string under the
/// expected nested field, or the empty string where that field is absent or
/// not a string.
pub open spec fn spec_translation_of(body: Seq<char>) -> Seq<char> {
    match json_string_at(body, spec_translated_text_path()) {
        Some(t) => t,
        None => Seq::empty(),
    }
}

/// Reads the translated text out of one response body.  A body that is not
/// JSON is an error; a well-formed body whose expected field is missing
/// yields the empty string rather than a failure.
pub fn parse_response(response: &str) -> (r: Result<String, ParseError>)
    ensures
        r is Ok <==> json_wellformed(response@),
        r matches Ok(t) ==> t@ == spec_translation_of(response@),
{
    match json_string_at_path(response, "/data/translations/0/translatedText") {
        Ok(Some(t)) => Ok(t),
        Ok(None) => Ok(String::new()),
        Err(_) => Err(ParseError::MalformedResponse),
    }
}

/// The Authorization header value carrying the access token.
pub fn bearer_token_header(access_token: &str) -> (r: String)
    ensures
        r@ == "Bearer "@ + access_token@,
{
    let mut s = "Bearer ".to_owned();
    s.append(access_token);
    s
}

/// The language code a run uses: the given one, or the fallback where none
/// was given.
pub fn or_default_language(code: String, fallback: &str) -> (r: String)
    ensures
        code@.len() == 0 ==> r@ == fallback@,
        code@.len() > 0 ==> r@ == code@,
{
    if code.as_str().is_empty() {
        fallback.to_owned()
    } else {
        code
    }
}

/// The state of one translation run.  Lines are submitted one at a time in
/// document order; every accepted response appends exactly one result that
/// carries the index of the line it answers.
pub struct TranslationSession {
    content: Vec<(usize, String)>,
    source: String,
    target: String,
    cursor: usize,
    results: Vec<(usize, String)>,
}

impl TranslationSession {
    pub closed spec fn spec_content(&self) -> Seq<(usize, String)> {
        self.content@
    }

    pub closed spec fn spec_source(&self) -> Seq<char> {
        self.source@
    }

    pub closed spec fn spec_target(&self) -> Seq<char> {
        self.target@
    }

    pub closed spec fn spec_cursor(&self) -> int {
        self.cursor as int
    }

    pub closed spec fn spec_results(&self) -> Seq<(usize, String)> {
        self.results@
    }

    /// Well-formedness: one result per answered line, in order, each
    /// carrying its line's index.
    pub open spec fn wf(&self) -> bool {
        &&& 0 <= self.spec_cursor() <= self.spec_content().len()
        &&& self.spec_results().len() == self.spec_cursor()
        &&& forall|i: int|
            0 <= i < self.spec_results().len() ==> (#[trigger] self.spec_results()[i]).0
                == self.spec_content()[i].0
    }

    pub fn new(input: TranslateInput) -> (s: TranslationSession)
        ensures
            s.wf(),
            s.spec_content() == input.formatted_content@,
            s.spec_source() == input.source@,
            s.spec_target() == input.target@,
            s.spec_cursor() == 0,
            s.spec_results().len() == 0,
    {
        TranslationSession {
            content: input.formatted_content,
            source: input.source,
            target: input.target,
            cursor: 0,
            results: Vec::new(),
        }
    }

    /// True when every line has been answered.
    pub fn is_done(&self) -> (r: bool)
        ensures
            r == (self.spec_cursor() == self.spec_content().len()),
    {
        self.cursor == self.content.len()
    }

    /// The request payload for the next unanswered line: its text, the
    /// session's language codes, the fixed output format, and the key.
    pub fn current_request(&self, config: &Config) -> (req: TranslateRequest)
        requires
            self.wf(),
            self.spec_cursor() < self.spec_content().len(),
        ensures
            req.q@ == self.spec_content()[self.spec_cursor()].1@,
            req.source@ == self.spec_source(),
            req.target@ == self.spec_target(),
            req.format@ == "text"@,
            req.key@ == config.spec_api_key(),
    {
        TranslateRequest {
            q: self.content[self.cursor].1.clone(),
            source: self.source.clone(),
            target: self.target.clone(),
            format: "text".to_owned(),
            key: config.get_api_key(),
        }
    }

    /// Accepts the response body for the next unanswered line.  On success
    /// the line's translation is appended under the line's own index and
    /// the cursor advances; a malformed body changes nothing.
    pub fn accept_response(&mut self, body: &str) -> (r: Result<(), ParseError>)
        requires
            old(self).wf(),
            old(self).spec_cursor() < old(self).spec_content().len(),
        ensures
            final(self).wf(),
            final(self).spec_content() == old(self).spec_content(),
            final(self).spec_source() == old(self).spec_source(),
            final(self).spec_target() == old(self).spec_target(),
            r is Ok <==> json_wellformed(body@),
            r is Ok ==> {
                &&& final(self).spec_cursor() == old(self).spec_cursor() + 1
                &&& final(self).spec_results() == old(self).spec_results().push(
                    final(self).spec_results().last(),
                )
                &&& final(self).spec_results().last().0 == old(self).spec_content()[old(
                    self,
                ).spec_cursor()].0
                &&& final(self).spec_results().last().1@ == spec_translation_of(body@)
            },
            r is Err ==> *final(self) == *old(self),
    {
        match parse_response(body) {
            Ok(t) => {
                proof {
                    broadcast use vstd::std_specs::vec::axiom_spec_len;

                    assert(self.content.len() == self.content@.len());
                }
                let idx: usize = self.content[self.cursor].0;
                self.results.push((idx, t));
                self.cursor = self.cursor + 1;
                proof {
                    assert(self.results@ =~= old(self).results@.push(self.results@.last()));
                }
                Ok(())
            },
            Err(e) => Err(e),
        }
    }

    /// The translated document, once every line has been answered: the same
    /// length as the input, in the same order, index for index.
    pub fn into_results(self) -> (r: Vec<(usize, String)>)
        requires
            self.wf(),
            self.spec_cursor() == self.spec_content().len(),
        ensures
            r@ == self.spec_results(),
            r@.len() == self.spec_content().len(),
            forall|i: int|
                0 <= i < r@.len() ==> (#[trigger] r@[i]).0 == self.spec_content()[i].0,
    {
        self.results
    }
}

} // verus!
