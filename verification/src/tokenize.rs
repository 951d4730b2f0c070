//! Token estimates, backed by the `tiktoken-rs` encodings.
use vstd::prelude::*;

use crate::error::{error_detail, CodeGrabberError, Result};
use crate::text::str_eq;

verus! {

/// The number of tokens the `o200k_base` encoding gives a text (special tokens allowed).
pub uninterp spec fn o200k_base_tokens(text: Seq<char>) -> nat;

/// Whether loading the `o200k_base` encoding and encoding the text succeed.
pub uninterp spec fn o200k_base_encodes(text: Seq<char>) -> bool;

/// The message of the error when loading the `o200k_base` encoding or encoding the text fails.
pub uninterp spec fn o200k_base_error(text: Seq<char>) -> Seq<char>;

/// The number of tokens the `cl100k_base` encoding gives a text (special tokens allowed).
pub uninterp spec fn cl100k_base_tokens(text: Seq<char>) -> nat;

/// Whether loading the `cl100k_base` encoding and encoding the text succeed.
pub uninterp spec fn cl100k_base_encodes(text: Seq<char>) -> bool;

/// The message of the error when loading the `cl100k_base` encoding or encoding the text fails.
pub uninterp spec fn cl100k_base_error(text: Seq<char>) -> Seq<char>;

/// The number of tokens the `p50k_base` encoding gives a text (special tokens allowed).
pub uninterp spec fn p50k_base_tokens(text: Seq<char>) -> nat;

/// Whether loading the `p50k_base` encoding and encoding the text succeed.
pub uninterp spec fn p50k_base_encodes(text: Seq<char>) -> bool;

/// The message of the error when loading the `p50k_base` encoding or encoding the text fails.
pub uninterp spec fn p50k_base_error(text: Seq<char>) -> Seq<char>;

/// `tiktoken_rs::o200k_base()` and then `CoreBPE::encode` with the encoding's
/// special tokens allowed; the length of the encoding. Claims: both the
/// success and the count depend on the text alone (the encoding's tables are
/// built into the crate), and the empty text encodes to no token (`encode`
/// finds no piece in it). Loading or encoding may fail; the error's text
/// comes back then, and it too depends on the text alone.
#[verifier::external_body]
fn count_o200k_base(text: &str) -> (r: std::result::Result<usize, String>)
    ensures
        r is Ok <==> o200k_base_encodes(text@),
        r matches Ok(n) ==> n == o200k_base_tokens(text@),
        r matches Err(m) ==> m@ == o200k_base_error(text@),
        text@.len() == 0 ==> (r is Ok && r->Ok_0 == 0),
{
    match tiktoken_rs::o200k_base() {
        Ok(bpe) => match bpe.encode(text, &bpe.special_tokens()) {
            Ok((tokens, _)) => Ok(tokens.len()),
            Err(err) => Err(err.to_string()),
        },
        Err(err) => Err(err.to_string()),
    }
}

/// As `count_o200k_base`, with `tiktoken_rs::cl100k_base()`.
#[verifier::external_body]
fn count_cl100k_base(text: &str) -> (r: std::result::Result<usize, String>)
    ensures
        r is Ok <==> cl100k_base_encodes(text@),
        r matches Ok(n) ==> n == cl100k_base_tokens(text@),
        r matches Err(m) ==> m@ == cl100k_base_error(text@),
        text@.len() == 0 ==> (r is Ok && r->Ok_0 == 0),
{
    match tiktoken_rs::cl100k_base() {
        Ok(bpe) => match bpe.encode(text, &bpe.special_tokens()) {
            Ok((tokens, _)) => Ok(tokens.len()),
            Err(err) => Err(err.to_string()),
        },
        Err(err) => Err(err.to_string()),
    }
}

/// As `count_o200k_base`, with `tiktoken_rs::p50k_base()`.
#[verifier::external_body]
fn count_p50k_base(text: &str) -> (r: std::result::Result<usize, String>)
    ensures
        r is Ok <==> p50k_base_encodes(text@),
        r matches Ok(n) ==> n == p50k_base_tokens(text@),
        r matches Err(m) ==> m@ == p50k_base_error(text@),
        text@.len() == 0 ==> (r is Ok && r->Ok_0 == 0),
{
    match tiktoken_rs::p50k_base() {
        Ok(bpe) => match bpe.encode(text, &bpe.special_tokens()) {
            Ok((tokens, _)) => Ok(tokens.len()),
            Err(err) => Err(err.to_string()),
        },
        Err(err) => Err(err.to_string()),
    }
}

/// The token count of a text under the named tokenizer; names other than
/// `cl100k_base` and `p50k_base` use `o200k_base`.
pub open spec fn token_count(tokenizer: Seq<char>, text: Seq<char>) -> nat {
    if tokenizer == "cl100k_base"@ {
        cl100k_base_tokens(text)
    } else if tokenizer == "p50k_base"@ {
        p50k_base_tokens(text)
    } else {
        o200k_base_tokens(text)
    }
}

/// Whether the named tokenizer encodes the text; names other than
/// `cl100k_base` and `p50k_base` use `o200k_base`.
pub open spec fn token_encodes(tokenizer: Seq<char>, text: Seq<char>) -> bool {
    if tokenizer == "cl100k_base"@ {
        cl100k_base_encodes(text)
    } else if tokenizer == "p50k_base"@ {
        p50k_base_encodes(text)
    } else {
        o200k_base_encodes(text)
    }
}

/// The message of the named tokenizer's error on the text; names other than
/// `cl100k_base` and `p50k_base` use `o200k_base`.
pub open spec fn token_error(tokenizer: Seq<char>, text: Seq<char>) -> Seq<char> {
    if tokenizer == "cl100k_base"@ {
        cl100k_base_error(text)
    } else if tokenizer == "p50k_base"@ {
        p50k_base_error(text)
    } else {
        o200k_base_error(text)
    }
}

/// Estimates the tokens of a text with the named tokenizer: the tokenizer's
/// count exactly when it encodes the text, a tokenizer error with the
/// tokenizer's message otherwise. The
/// empty text has no token.
pub fn estimate_tokens(tokenizer: &str, content: &str) -> (r: Result<usize>)
    ensures
        r is Ok <==> token_encodes(tokenizer@, content@),
        r matches Ok(n) ==> n == token_count(tokenizer@, content@),
        r matches Err(e) ==> e is Tokenizer && error_detail(e) == token_error(tokenizer@, content@),
        content@.len() == 0 ==> r == Ok::<usize, CodeGrabberError>(0),
{
    let counted = if str_eq(tokenizer, "o200k_base") {
        count_o200k_base(content)
    } else if str_eq(tokenizer, "cl100k_base") {
        count_cl100k_base(content)
    } else if str_eq(tokenizer, "p50k_base") {
        count_p50k_base(content)
    } else {
        count_o200k_base(content)
    };
    proof {
        reveal_strlit("o200k_base");
        reveal_strlit("cl100k_base");
        reveal_strlit("p50k_base");
        assert("o200k_base"@[0] == 'o' && "cl100k_base"@[0] == 'c' && "p50k_base"@[0] == 'p');
    }
    match counted {
        Ok(n) => Ok(n),
        Err(msg) => Err(CodeGrabberError::Tokenizer(msg)),
    }
}

/// A tokenizer name other than the three known ones counts, succeeds and
/// fails exactly as `o200k_base` does.
pub proof fn law_unknown_tokenizer_is_o200k_base(tokenizer: Seq<char>, text: Seq<char>)
    requires
        tokenizer != "o200k_base"@,
        tokenizer != "cl100k_base"@,
        tokenizer != "p50k_base"@,
    ensures
        token_count(tokenizer, text) == token_count("o200k_base"@, text),
        token_encodes(tokenizer, text) == token_encodes("o200k_base"@, text),
        token_error(tokenizer, text) == token_error("o200k_base"@, text),
{
    reveal_strlit("o200k_base");
    reveal_strlit("cl100k_base");
    reveal_strlit("p50k_base");
    assert("o200k_base"@ != "cl100k_base"@ && "o200k_base"@ != "p50k_base"@) by {
        assert("o200k_base"@[0] != "cl100k_base"@[0]);
        assert("o200k_base"@[0] != "p50k_base"@[0]);
    }
}

/// Each of the three known names uses its own encoding: the count, the
/// success and the error message of `cl100k_base` come from the
/// `cl100k_base` encoding, and likewise for `p50k_base` and `o200k_base`.
pub proof fn law_named_tokenizers_use_their_encoding(text: Seq<char>)
    ensures
        token_count("o200k_base"@, text) == o200k_base_tokens(text),
        token_encodes("o200k_base"@, text) == o200k_base_encodes(text),
        token_error("o200k_base"@, text) == o200k_base_error(text),
        token_count("cl100k_base"@, text) == cl100k_base_tokens(text),
        token_encodes("cl100k_base"@, text) == cl100k_base_encodes(text),
        token_error("cl100k_base"@, text) == cl100k_base_error(text),
        token_count("p50k_base"@, text) == p50k_base_tokens(text),
        token_encodes("p50k_base"@, text) == p50k_base_encodes(text),
        token_error("p50k_base"@, text) == p50k_base_error(text),
{
    reveal_strlit("o200k_base");
    reveal_strlit("cl100k_base");
    reveal_strlit("p50k_base");
    assert("o200k_base"@[0] != "cl100k_base"@[0]);
    assert("o200k_base"@[0] != "p50k_base"@[0]);
    assert("cl100k_base"@[0] != "p50k_base"@[0]);
}

} // verus!
