use tokenizers::models::unigram::Unigram;
use tokenizers::Tokenizer;
use wiz_rs::element::{BlockLayout, ModelKVMemoryType, TypeTable};
use wiz_rs::error::InferenceError;
use wiz_rs::hparams::Hyperparameters;
use wiz_rs::model::Model;
use wiz_rs::session::InferenceSessionParameters;
use wiz_rs::tokenizer::{decoded_text, encoded_tokens, token_text};

fn words() -> Vec<(String, f64)> {
    [("<unk>", 0.0), ("a", -2.0), ("b", -2.5), ("ab", -1.0), ("c", -3.0), ("abc", -0.5)]
        .iter()
        .map(|(w, s)| (w.to_string(), *s))
        .collect()
}

fn unigram_tokenizer() -> Tokenizer {
    Tokenizer::new(Unigram::from(words(), Some(0)).unwrap())
}

fn tokenizer_model(max_seq_len: i32) -> Model {
    let types = TypeTable::new(
        BlockLayout { type_size: 20, blck_size: 32 },
        BlockLayout { type_size: 24, blck_size: 32 },
    )
    .unwrap();
    let h = Hyperparameters { d_model: 2, max_seq_len, n_heads: 1, n_layers: 1, n_vocab: 6, ftype: 0 };
    Model::declare(h, types, 1).unwrap()
}

fn plain_session() -> InferenceSessionParameters {
    InferenceSessionParameters {
        last_n_size: 4,
        memory_k_type: ModelKVMemoryType::Float32,
        memory_v_type: ModelKVMemoryType::Float32,
    }
}

#[test]
fn text_is_turned_into_the_best_tokens() {
    let model = tokenizer_model(16);
    let tokenizer = unigram_tokenizer();
    assert_eq!(model.tokenize(&tokenizer, "abc", true), Ok(vec![5]));
    assert_eq!(model.tokenize(&tokenizer, "abab", false), Ok(vec![3, 3]));
    assert_eq!(model.tokenize(&tokenizer, "cab", true), Ok(vec![4, 3]));
    assert_eq!(model.tokenize(&tokenizer, "", true), Ok(vec![]));
}

#[test]
fn a_token_is_turned_back_into_its_text() {
    let tokenizer = unigram_tokenizer();
    assert_eq!(token_text(&tokenizer, 3), Ok("ab".to_string()));
    assert_eq!(token_text(&tokenizer, 5), Ok("abc".to_string()));
    assert_eq!(token_text(&tokenizer, 99), Ok(String::new()));
}

#[test]
fn a_token_is_the_first_token_of_its_own_text() {
    let model = tokenizer_model(16);
    let tokenizer = unigram_tokenizer();
    for id in 1..6u32 {
        let text = token_text(&tokenizer, id).unwrap();
        assert_eq!(text, words()[id as usize].0);
        assert_eq!(model.tokenize(&tokenizer, &text, true).unwrap()[0], id);
    }
}

#[test]
fn a_prompt_is_tokenized_and_cut() {
    let model = tokenizer_model(16);
    let tokenizer = unigram_tokenizer();
    let mut s = model.start_session(plain_session());
    let prompt = "abcab".repeat(5);
    let batches = s.feed_prompt(&model, &tokenizer, &prompt).unwrap();
    assert_eq!(batches, vec![vec![5, 3, 5, 3, 5, 3, 5, 3], vec![5, 3]]);
    s.n_past = 6;
    assert_eq!(s.feed_prompt(&model, &tokenizer, &prompt), Err(InferenceError::ContextFull));
    s.n_past = 5;
    assert_eq!(s.feed_prompt(&model, &tokenizer, &prompt).unwrap().len(), 2);
}

#[test]
fn a_text_that_has_no_tokens_fails_to_tokenize() {
    let model = tokenizer_model(16);
    let without_unknown = Tokenizer::new(Unigram::from(words(), None).unwrap());
    assert_eq!(model.tokenize(&without_unknown, "ab", true), Ok(vec![3]));
    assert_eq!(model.tokenize(&without_unknown, "z", true), Err(InferenceError::TokenizationFailed));
    let s = model.start_session(plain_session());
    assert_eq!(
        s.feed_prompt(&model, &without_unknown, "abz"),
        Err(InferenceError::TokenizationFailed)
    );
    assert_eq!(s.n_past, 0);
}

#[test]
fn what_the_tokenizer_hands_back_is_passed_on() {
    assert_eq!(encoded_tokens(Some(vec![3, 5])), Ok(vec![3, 5]));
    assert_eq!(encoded_tokens(Some(vec![])), Ok(vec![]));
    assert_eq!(encoded_tokens(None), Err(InferenceError::TokenizationFailed));
    assert_eq!(decoded_text(Some("ab".to_string())), Ok("ab".to_string()));
    assert_eq!(decoded_text(Some(String::new())), Ok(String::new()));
    assert_eq!(decoded_text(None), Err(InferenceError::TokenizationFailed));
}
