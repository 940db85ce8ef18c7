//! Turning text into token ids and back, with the tokenizer that was built
//! from the model's vocabulary.

use tokenizers::Tokenizer;
use vstd::prelude::*;
use crate::error::InferenceError;
use crate::model::Model;
use crate::token::TokenId;

verus! {

/// The tokenizer of the crate `tokenizers`, carried through as it is.
#[verifier::external_type_specification]
#[verifier::external_body]
pub struct ExTokenizer(Tokenizer);

/// The ids of the tokens of `text`.
///
/// Trusted: calls `encode` of `tokenizers::Tokenizer` on the single sequence
/// `text` and copies the ids of the encoding. What comes back depends on the
/// tokenizer; nothing is claimed of it.
#[verifier::external_body]
pub(crate) fn encode_ids(tokenizer: &Tokenizer, text: &str, add_special_tokens: bool) -> (r: Option<
    Vec<TokenId>,
>) {
    tokenizer.encode(text, add_special_tokens).ok().map(|encoding| encoding.get_ids().to_vec())
}

/// The text of the tokens `ids`.
///
/// Trusted: calls `decode` of `tokenizers::Tokenizer`. What comes back
/// depends on the tokenizer; nothing is claimed of it.
#[verifier::external_body]
pub(crate) fn decode_ids(tokenizer: &Tokenizer, ids: Vec<TokenId>, skip_special_tokens: bool) -> (r:
    Option<String>) {
    tokenizer.decode(ids, skip_special_tokens).ok()
}

impl Model {
    /// Turns `text` into token ids, special tokens included. Fails with
    /// `TokenizationFailed` where the tokenizer does.
    pub fn tokenize(&self, tokenizer: &Tokenizer, text: &str, _bos: bool) -> (r: Result<
        Vec<TokenId>,
        InferenceError,
    >)
        ensures
            r is Err ==> r->Err_0 == InferenceError::TokenizationFailed,
    {
        // the tokenizer decides; special tokens are asked for
        let encoded = encode_ids(tokenizer, text, true);
        let tokens = encoded_tokens(encoded);
        tokens
    }
}

/// The text of the single token `id`, special tokens left out. Fails with
/// `TokenizationFailed` where the tokenizer does.
pub fn token_text(tokenizer: &Tokenizer, id: TokenId) -> (r: Result<String, InferenceError>)
    ensures
        r is Err ==> r->Err_0 == InferenceError::TokenizationFailed,
{
    // the tokenizer decides; special tokens are left out
    let decoded = decode_ids(tokenizer, vec![id], true);
    let text = decoded_text(decoded);
    text
}

/// What tokenizing gives for what the tokenizer handed back: the ids, or
/// `TokenizationFailed` where it handed back none.
pub fn encoded_tokens(encoded: Option<Vec<TokenId>>) -> (r: Result<Vec<TokenId>, InferenceError>)
    ensures
        encoded is Some ==> r == Ok::<Vec<TokenId>, InferenceError>(encoded->0),
        encoded is None ==> r == Err::<Vec<TokenId>, InferenceError>(
            InferenceError::TokenizationFailed,
        ),
{
    match encoded {
        Some(ids) => Ok(ids),
        None => Err(InferenceError::TokenizationFailed),
    }
}

/// What decoding gives for what the tokenizer handed back: the text, or
/// `TokenizationFailed` where it handed back none.
pub fn decoded_text(decoded: Option<String>) -> (r: Result<String, InferenceError>)
    ensures
        decoded is Some ==> r == Ok::<String, InferenceError>(decoded->0),
        decoded is None ==> r == Err::<String, InferenceError>(InferenceError::TokenizationFailed),
{
    match decoded {
        Some(text) => Ok(text),
        None => Err(InferenceError::TokenizationFailed),
    }
}

} // verus!
