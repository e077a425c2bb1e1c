//! The tokenizer adapter: loads a tokenizer model from disk once, and
//! counts the language-model tokens of a text. Counting is a pure local
//! computation over the loaded model.
use crate::errors::TokenizerError;
use vstd::prelude::*;

verus! {

/// The loaded tokenizer model of the tokenizers crate, carried opaquely:
/// nothing of its inside is relied on here.
#[verifier::external_type_specification]
#[verifier::external_body]
pub struct ExTokenizer(tokenizers::Tokenizer);

/// Relies on std's `Path::exists`: whether something exists on disk at the
/// path. The answer depends on the machine's disk, so nothing is promised
/// of it.
#[verifier::external_body]
fn path_exists(path: &str) -> bool {
    std::path::Path::new(path).exists()
}

/// Relies on tokenizers' `Tokenizer::from_file`: reads and parses a
/// tokenizer model file. What comes back depends on the disk, so nothing
/// is promised of it.
#[verifier::external_body]
fn tokenizer_from_file(path: &str) -> Result<tokenizers::Tokenizer, String> {
    match tokenizers::Tokenizer::from_file(path) {
        Ok(t) => Ok(t),
        Err(e) => Err(e.to_string()),
    }
}

/// Load the tokenizer model at the given path, once, for reuse across a
/// whole traversal. Fails with `FileNotFound` when nothing is at the path,
/// and with `LoadError` when what is there cannot be read as a tokenizer
/// model.
pub fn load_tokenizer(path: &str) -> (r: Result<tokenizers::Tokenizer, TokenizerError>)
    ensures
        r matches Err(e) ==> (e matches TokenizerError::FileNotFound(p) && p@ == path@) || (e
            matches TokenizerError::LoadError(_)),
{
    if !path_exists(path) {
        return Err(TokenizerError::FileNotFound(path.to_owned()));
    }
    match tokenizer_from_file(path) {
        Ok(t) => Ok(t),
        Err(m) => Err(TokenizerError::LoadError(m)),
    }
}

/// Relies on tokenizers' `Tokenizer::encode` and `Encoding::get_ids`: the
/// number of language-model tokens the text takes. The count depends on
/// the loaded model, so only the shape of a failure is promised.
#[verifier::external_body]
pub fn count_tokens(content: &str, tokenizer: &tokenizers::Tokenizer) -> (r: Result<
    usize,
    TokenizerError,
>)
    ensures
        r matches Err(e) ==> e matches TokenizerError::TokenizationError(_),
{
    match tokenizer.encode(content, true) {
        Ok(encoding) => Ok(encoding.get_ids().len()),
        Err(e) => Err(TokenizerError::TokenizationError(format!("{}", e))),
    }
}

} // verus!
