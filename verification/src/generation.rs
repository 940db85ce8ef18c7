//! The decisions of generation: whether the context window can take more
//! tokens, how a prompt is cut into batches, which token comes next, and
//! when the text ends.
//!
//! Forward passes are run by whoever binds the tensor runtime, between the
//! calls into this module: each batch that [`InferenceSession::feed_prompt`]
//! hands out, and each token that [`InferenceSession::infer_next_token`]
//! chooses, is passed through the model and taken in with `Model::evaluate`.

use tokenizers::Tokenizer;
use vstd::prelude::*;
use vstd::string::StringExecFns;
use crate::bias::BiasPolicy;
use crate::error::InferenceError;
use crate::ieee::F32Bits;
use crate::model::Model;
use crate::params::InferenceParameters;
use crate::sampler::{effective, selected};
use crate::session::{pushed, InferenceSession};
use crate::token::{OutputToken, TokenId};

verus! {

/// How many tokens of a prompt go into one forward pass.
pub const PROMPT_BATCH: usize = 8;

/// The context window cannot take `adding` more tokens: with them the
/// positions would reach its end.
pub open spec fn context_full(n_past: int, adding: int, max_seq_len: int) -> bool {
    n_past + adding >= max_seq_len
}

/// Number of batches of a prompt of `n` tokens.
pub open spec fn batch_count(n: nat) -> nat {
    ((n + 7) / 8) as nat
}

/// Batch `k` of a prompt: its tokens from `8 * k` on, eight or what is left.
pub open spec fn batch_of(tokens: Seq<TokenId>, k: int) -> Seq<TokenId> {
    tokens.subrange(
        8 * k,
        if 8 * k + 8 <= tokens.len() {
            8 * k + 8
        } else {
            tokens.len() as int
        },
    )
}

/// `batches` are the batches of `tokens`, in order.
pub open spec fn cut_into(tokens: Seq<TokenId>, batches: Seq<Vec<TokenId>>) -> bool {
    &&& batches.len() == batch_count(tokens.len())
    &&& forall|k: int| 0 <= k < batches.len() ==> (#[trigger] batches[k])@ == batch_of(tokens, k)
}

/// Cuts `tokens` into batches of [`PROMPT_BATCH`].
pub fn split_batches(tokens: &Vec<TokenId>) -> (r: Vec<Vec<TokenId>>)
    ensures
        cut_into(tokens@, r@),
{
    let n = tokens.len();
    let mut batches: Vec<Vec<TokenId>> = Vec::new();
    let mut at: usize = 0;
    while at < n
        invariant
            n == tokens.len(),
            at <= n,
            at % 8 == 0 || at == n,
            at == n ==> batches.len() == batch_count(n as nat),
            at < n ==> batches.len() == at / 8,
            forall|k: int| 0 <= k < batches.len() ==> (#[trigger] batches[k])@ == batch_of(tokens@, k),
        decreases n - at,
    {
        let end = if n - at >= PROMPT_BATCH {
            at + PROMPT_BATCH
        } else {
            n
        };
        let mut batch: Vec<TokenId> = Vec::new();
        let mut i: usize = at;
        while i < end
            invariant
                at <= i <= end <= n,
                n == tokens.len(),
                batch@ == tokens@.subrange(at as int, i as int),
            decreases end - i,
        {
            batch.push(tokens[i]);
            proof {
                assert(batch@ =~= tokens@.subrange(at as int, i + 1));
            }
            i = i + 1;
        }
        batches.push(batch);
        at = end;
    }
    batches
}

impl InferenceSession {
    /// Whether the context window cannot take `adding` more tokens.
    pub fn is_context_full(&self, model: &Model, adding: usize) -> (r: bool)
        requires
            self.wf(model.hparams),
        ensures
            r == context_full(self.n_past as int, adding as int, model.hparams.max_seq_len as int),
    {
        let window = model.hparams.max_seq_len as usize;
        adding >= window - self.n_past
    }

    /// Cuts the tokens of a prompt into the batches in which they are fed,
    /// or fails with `ContextFull` where the context window cannot take
    /// them. The session is only read.
    pub fn batches_for(&self, model: &Model, prompt_tokens: &Vec<TokenId>) -> (r: Result<
        Vec<Vec<TokenId>>,
        InferenceError,
    >)
        requires
            self.wf(model.hparams),
        ensures
            context_full(
                self.n_past as int,
                prompt_tokens.len() as int,
                model.hparams.max_seq_len as int,
            ) ==> r == Err::<Vec<Vec<TokenId>>, InferenceError>(InferenceError::ContextFull),
            !context_full(
                self.n_past as int,
                prompt_tokens.len() as int,
                model.hparams.max_seq_len as int,
            ) ==> r is Ok && cut_into(prompt_tokens@, r->Ok_0@),
    {
        if self.is_context_full(model, prompt_tokens.len()) {
            return Err(InferenceError::ContextFull);
        }
        Ok(split_batches(prompt_tokens))
    }

    /// Turns `prompt` into tokens and cuts them into the batches in which
    /// they are fed. Fails with `TokenizationFailed` where the tokenizer
    /// does, and with `ContextFull` where the context window cannot take the
    /// tokens. The session is only read.
    pub fn feed_prompt(&self, model: &Model, tokenizer: &Tokenizer, prompt: &str) -> (r: Result<
        Vec<Vec<TokenId>>,
        InferenceError,
    >)
        requires
            self.wf(model.hparams),
        ensures
            r is Err ==> r->Err_0 == InferenceError::TokenizationFailed || r->Err_0
                == InferenceError::ContextFull,
            r is Ok ==> exists|tokens: Seq<TokenId>|
                cut_into(tokens, r->Ok_0@) && !context_full(
                    self.n_past as int,
                    tokens.len() as int,
                    model.hparams.max_seq_len as int,
                ),
    {
        let beginning_of_sentence = self.n_past == 0;
        let prompt_tokens = match model.tokenize(tokenizer, prompt, beginning_of_sentence) {
            Ok(tokens) => tokens,
            Err(e) => {
                return Err(e);
            },
        };
        self.batches_for(model, &prompt_tokens)
    }

    /// Chooses the next token from the scaled logits and remembers it as the
    /// most recent one, or fails with `ContextFull`, leaving the session as
    /// it was, where the context window cannot take one more token. The
    /// chosen token is a best one: no token has an effective logit that is
    /// greater in the total order.
    pub fn infer_next_token<B: BiasPolicy>(
        &mut self,
        model: &Model,
        params: &InferenceParameters<B>,
        scaled: &Vec<F32Bits>,
    ) -> (r: Result<TokenId, InferenceError>)
        requires
            old(self).wf(model.hparams),
            scaled.len() == model.hparams.n_vocab,
            scaled.len() >= 1,
            params.top_k >= 1,
        ensures
            final(self).wf(model.hparams),
            context_full(old(self).n_past as int, 1, model.hparams.max_seq_len as int) ==> r
                == Err::<TokenId, InferenceError>(InferenceError::ContextFull) && *final(self)
                == *old(self),
            !context_full(old(self).n_past as int, 1, model.hparams.max_seq_len as int) ==> {
                &&& r == Ok::<TokenId, InferenceError>(
                    selected(&params.bias_tokens, scaled@, params.top_k),
                )
                &&& r->Ok_0 < model.hparams.n_vocab
                &&& forall|id: int|
                    0 <= id < scaled.len() ==> effective(
                        &params.bias_tokens,
                        scaled@,
                        r->Ok_0 as int,
                    ).key() >= #[trigger] effective(&params.bias_tokens, scaled@, id).key()
                &&& final(self).last_n_tokens@ == pushed(old(self).last_n_tokens@, r->Ok_0)
                &&& final(self).n_past == old(self).n_past
                &&& final(self).params == old(self).params
                &&& final(self).memory_k == old(self).memory_k
                &&& final(self).memory_v == old(self).memory_v
                &&& final(self).mem_per_token == old(self).mem_per_token
                &&& final(self).last_logits == old(self).last_logits
            },
    {
        if self.is_context_full(model, 1) {
            return Err(InferenceError::ContextFull);
        }
        let next_token = model.sample_top_p_top_k(scaled, params);
        self.push_token(next_token);
        Ok(next_token)
    }
}

/// The text that ends a reply: the marker of the user's next turn.
pub open spec fn user_turn() -> Seq<char> {
    "<|USER|>"@
}

/// The state of one run of generation after a prompt.
#[derive(Clone, Copy, Debug, PartialEq, Eq, Structural)]
pub struct Generation {
    /// The number of tokens after which generation stops, if it is limited.
    pub maximum_token_count: Option<usize>,
    /// Tokens generated so far.
    pub tokens_processed: usize,
    /// The end of the text, or the marker of the user's turn, was generated.
    pub ended: bool,
}

impl Generation {
    pub fn new(maximum_token_count: Option<usize>) -> (r: Generation)
        ensures
            r == (Generation { maximum_token_count, tokens_processed: 0, ended: false }),
    {
        Generation { maximum_token_count, tokens_processed: 0, ended: false }
    }

    /// Another token is to be generated: the text has not ended, the context
    /// window has room, and the limit is not reached.
    pub open spec fn continues(self, n_past: int, max_seq_len: int) -> bool {
        &&& !self.ended
        &&& n_past < max_seq_len
        &&& match self.maximum_token_count {
            Some(limit) => self.tokens_processed < limit,
            None => true,
        }
    }

    /// Whether another token is to be generated.
    pub fn wants_token(&self, session: &InferenceSession, model: &Model) -> (r: bool)
        ensures
            r == self.continues(session.n_past as int, model.hparams.max_seq_len as int),
    {
        if self.ended {
            return false;
        }
        if model.hparams.max_seq_len < 0 || session.n_past >= model.hparams.max_seq_len as usize {
            return false;
        }
        match self.maximum_token_count {
            Some(limit) => self.tokens_processed < limit,
            None => true,
        }
    }

    /// Counts `token` as generated. The text has ended with the end of the
    /// document and with the marker of the user's turn.
    pub fn record(&mut self, token: &OutputToken)
        requires
            old(self).tokens_processed < usize::MAX,
        ensures
            final(self).maximum_token_count == old(self).maximum_token_count,
            final(self).tokens_processed == old(self).tokens_processed + 1,
            final(self).ended == (old(self).ended || token is EndOfText || (token is Token
                && token.text() == user_turn())),
    {
        self.tokens_processed = self.tokens_processed + 1;
        match token {
            OutputToken::Token(text) => {
                let marker = String::from_str("<|USER|>");
                if *text == marker {
                    self.ended = true;
                }
            },
            OutputToken::EndOfText => {
                self.ended = true;
            },
        }
    }
}

/// What a run of generation took.
#[derive(Clone, Copy, Debug, PartialEq, Eq, Structural)]
pub struct InferenceStats {
    /// Nanoseconds from the start to the end of feeding the prompt.
    pub feed_prompt_duration: u128,
    /// Positions written when the prompt had been fed.
    pub prompt_tokens: usize,
    /// Nanoseconds from the start to the end of generation.
    pub predict_duration: u128,
    /// Positions written when generation ended.
    pub predict_tokens: usize,
}

impl Default for InferenceStats {
    fn default() -> (r: InferenceStats)
        ensures
            r == (InferenceStats {
                feed_prompt_duration: 0,
                prompt_tokens: 0,
                predict_duration: 0,
                predict_tokens: 0,
            }),
    {
        InferenceStats {
            feed_prompt_duration: 0,
            prompt_tokens: 0,
            predict_duration: 0,
            predict_tokens: 0,
        }
    }
}

} // verus!
