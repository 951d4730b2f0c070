//! Turning a file's bytes into the text that goes into the bundle.
use vstd::prelude::*;

use crate::classify::{opt_view, FileClassification};
use crate::config::ScanConfig;
use crate::discover::FileCandidate;
use crate::error::{error_detail, Result};
use crate::sanitize::{sanitize_content, sanitized};
use crate::sort::Keyed;
use crate::text::string_views;
use crate::tokenize::{estimate_tokens, token_count, token_encodes, token_error};

verus! {

/// A file ready for the bundle.
#[derive(Debug, Clone)]
pub struct ExtractedFile {
    pub rel_path: String,
    pub language: Option<String>,
    pub original_bytes: usize,
    pub output_bytes: usize,
    pub estimated_tokens: usize,
    pub transformations: Vec<String>,
    pub content: String,
}

/// An extracted file as plain values: path, language, original bytes,
/// output bytes, tokens, transformations, content.
pub type ExtractedView = (Seq<char>, Option<Seq<char>>, usize, usize, usize, Seq<Seq<char>>, Seq<char>);

impl View for ExtractedFile {
    type V = ExtractedView;

    open spec fn view(&self) -> ExtractedView {
        (
            self.rel_path@,
            opt_view(self.language),
            self.original_bytes,
            self.output_bytes,
            self.estimated_tokens,
            string_views(self.transformations@),
            self.content@,
        )
    }
}

impl Keyed for ExtractedFile {
    open spec fn key(&self) -> Seq<char> {
        self.rel_path@
    }

    fn key_str(&self) -> (r: &str) {
        self.rel_path.as_str()
    }
}

/// The text `String::from_utf8_lossy` makes of some bytes.
pub uninterp spec fn utf8_lossy(bytes: Seq<u8>) -> Seq<char>;

/// `String::from_utf8_lossy`. Claims: the text depends on the bytes alone,
/// and well-formed UTF-8 is decoded unchanged.
#[verifier::external_body]
fn decode_lossy(bytes: &[u8]) -> (r: String)
    ensures
        r@ == utf8_lossy(bytes@),
        vstd::utf8::valid_utf8(bytes@) ==> r@ == vstd::utf8::decode_utf8(bytes@),
{
    String::from_utf8_lossy(bytes).to_string()
}

/// The size in bytes of a text's UTF-8 encoding.
pub open spec fn utf8_len(s: Seq<char>) -> nat {
    vstd::utf8::encode_utf8(s).len()
}

/// The extracted file for a cleaned text and its token count.
pub open spec fn is_extracted(
    f: ExtractedView,
    candidate: FileCandidate,
    classification: FileClassification,
    original_bytes: usize,
    content: Seq<char>,
    transformations: Seq<Seq<char>>,
    tokens: usize,
) -> bool {
    f == (
        candidate.rel_path@,
        opt_view(classification.language),
        original_bytes,
        utf8_len(content) as usize,
        tokens,
        transformations,
        content,
    )
}

/// Puts together the extracted file from the cleaned text and its token count.
pub fn finish_extraction(
    candidate: &FileCandidate,
    classification: &FileClassification,
    original_bytes: usize,
    content: String,
    transformations: Vec<String>,
    estimated_tokens: usize,
) -> (r: ExtractedFile)
    ensures
        is_extracted(
            r@,
            *candidate,
            *classification,
            original_bytes,
            content@,
            string_views(transformations@),
            estimated_tokens,
        ),
{
    let output_bytes = content.as_str().len();
    ExtractedFile {
        rel_path: candidate.rel_path.clone(),
        language: classification.language.clone(),
        original_bytes,
        output_bytes,
        estimated_tokens,
        transformations,
        content,
    }
}

/// The cleaned text of a file whose bytes are `raw`.
pub open spec fn extracted_text(
    config: ScanConfig,
    candidate: FileCandidate,
    classification: FileClassification,
    raw: Seq<u8>,
) -> (Seq<char>, Seq<Seq<char>>) {
    sanitized(config, utf8_lossy(raw), opt_view(classification.language), opt_view(candidate.extension))
}

/// Extracts a file from its bytes: decodes them (invalid UTF-8 becomes
/// U+FFFD), cleans the text, and estimates its tokens. Fails exactly when the
/// tokenizer does not encode the cleaned text.
pub fn extract_file(
    config: &ScanConfig,
    candidate: &FileCandidate,
    classification: &FileClassification,
    raw: &[u8],
) -> (r: Result<ExtractedFile>)
    ensures
        r matches Ok(f) ==> is_extracted(
            f@,
            *candidate,
            *classification,
            raw@.len() as usize,
            extracted_text(*config, *candidate, *classification, raw@).0,
            extracted_text(*config, *candidate, *classification, raw@).1,
            token_count(config.tokenizer@, extracted_text(*config, *candidate, *classification, raw@).0) as usize,
        ),
        r is Ok <==> token_encodes(
            config.tokenizer@,
            extracted_text(*config, *candidate, *classification, raw@).0,
        ),
        r matches Err(e) ==> e is Tokenizer && error_detail(e) == token_error(
            config.tokenizer@,
            extracted_text(*config, *candidate, *classification, raw@).0,
        ),
{
    let original_bytes = raw.len();
    let decoded = decode_lossy(raw);
    let (content, transformations) = sanitize_content(config, decoded.as_str(), classification, candidate);
    let tokens = estimate_tokens(config.tokenizer.as_str(), content.as_str())?;
    Ok(finish_extraction(candidate, classification, original_bytes, content, transformations, tokens))
}

/// Estimating an extracted file's text again, with the scan's tokenizer,
/// succeeds and gives the count the file records.
pub proof fn law_reestimating_an_extracted_file_gives_its_count(
    config: ScanConfig,
    candidate: FileCandidate,
    classification: FileClassification,
    raw: Seq<u8>,
    f: ExtractedView,
)
    requires
        token_encodes(config.tokenizer@, extracted_text(config, candidate, classification, raw).0),
        is_extracted(
            f,
            candidate,
            classification,
            raw.len() as usize,
            extracted_text(config, candidate, classification, raw).0,
            extracted_text(config, candidate, classification, raw).1,
            token_count(config.tokenizer@, extracted_text(config, candidate, classification, raw).0) as usize,
        ),
    ensures
        token_encodes(config.tokenizer@, f.6),
        f.4 == token_count(config.tokenizer@, f.6) as usize,
{
}

} // verus!
