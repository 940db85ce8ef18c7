use wiz_rs::element::{BlockLayout, ModelKVMemoryType, TypeTable};
use wiz_rs::error::InferenceError;
use wiz_rs::evaluator::EvalOutcome;
use wiz_rs::generation::{split_batches, Generation, InferenceStats, PROMPT_BATCH};
use wiz_rs::hparams::Hyperparameters;
use wiz_rs::ieee::F32Bits;
use wiz_rs::model::Model;
use wiz_rs::params::InferenceParameters;
use wiz_rs::session::{InferenceSession, InferenceSessionParameters};
use wiz_rs::token::{OutputToken, EOD_TOKEN_ID};

/// The result of a forward pass of `n` tokens whose keys are all `key` and
/// whose values are all `value`.
fn pass_of(model: &Model, s: &InferenceSession, n: usize, logits: Vec<F32Bits>, used_mem: usize, key: u8, value: u8) -> EvalOutcome {
    let h = &model.hparams;
    let rows = (h.n_layers * h.d_model) as usize * n;
    EvalOutcome {
        logits,
        used_mem,
        keys: vec![key; rows * s.params.memory_k_type.element_size()],
        values: vec![value; rows * s.params.memory_v_type.element_size()],
    }
}

fn generation_model(max_seq_len: i32) -> Model {
    let types = TypeTable::new(
        BlockLayout { type_size: 20, blck_size: 32 },
        BlockLayout { type_size: 24, blck_size: 32 },
    )
    .unwrap();
    let h = Hyperparameters { d_model: 2, max_seq_len, n_heads: 1, n_layers: 1, n_vocab: 4, ftype: 0 };
    Model::declare(h, types, 1).unwrap()
}

fn ring_of(last_n_size: usize) -> InferenceSessionParameters {
    InferenceSessionParameters {
        last_n_size,
        memory_k_type: ModelKVMemoryType::Float32,
        memory_v_type: ModelKVMemoryType::Float32,
    }
}

fn as_bits(values: &[f32]) -> Vec<F32Bits> {
    values.iter().map(|v| F32Bits { bits: v.to_bits() }).collect()
}

#[test]
fn a_prompt_is_cut_into_batches_of_eight() {
    assert_eq!(PROMPT_BATCH, 8);
    assert_eq!(split_batches(&vec![]), Vec::<Vec<u32>>::new());
    assert_eq!(split_batches(&vec![7]), vec![vec![7]]);
    let eight: Vec<u32> = (1..=8).collect();
    assert_eq!(split_batches(&eight), vec![eight.clone()]);
    let nine: Vec<u32> = (1..=9).collect();
    assert_eq!(split_batches(&nine), vec![eight.clone(), vec![9]]);
    let many: Vec<u32> = (0..20).collect();
    assert_eq!(
        split_batches(&many),
        vec![(0..8).collect::<Vec<u32>>(), (8..16).collect(), (16..20).collect()]
    );
}

#[test]
fn a_prompt_that_reaches_the_end_of_the_window_is_refused() {
    let model = generation_model(12);
    let mut s = model.start_session(ring_of(4));
    let ten: Vec<u32> = (0..10).collect();
    let eleven: Vec<u32> = (0..11).collect();
    let twelve: Vec<u32> = (0..12).collect();
    assert_eq!(s.batches_for(&model, &ten), Ok(vec![(0..8).collect::<Vec<u32>>(), vec![8, 9]]));
    assert_eq!(s.batches_for(&model, &eleven), Ok(vec![(0..8).collect::<Vec<u32>>(), vec![8, 9, 10]]));
    assert_eq!(s.batches_for(&model, &twelve), Err(InferenceError::ContextFull));
    s.n_past = 2;
    assert_eq!(s.batches_for(&model, &ten), Err(InferenceError::ContextFull));
    assert_eq!(s.batches_for(&model, &vec![1]), Ok(vec![vec![1]]));
    assert_eq!(s.n_past, 2);
}

#[test]
fn feeding_a_prompt_advances_the_session_batch_by_batch() {
    let model = generation_model(32);
    let mut s = model.start_session(ring_of(4));
    let prompt: Vec<u32> = (0..19).map(|i| i % 4).collect();
    let batches = s.batches_for(&model, &prompt).unwrap();
    let mut fed = Vec::new();
    for batch in batches {
        let plan = model.plan_evaluation(&s, 2, batch.len());
        assert_eq!(plan.n_past, fed.len());
        assert_eq!(plan.n_tokens, batch.len());
        let outcome = pass_of(&model, &s, batch.len(), as_bits(&[0.0; 4]), 80, 0, 0);
        model.evaluate(&mut s, &batch, outcome);
        for token in batch {
            s.push_token(token);
            fed.push(token);
        }
    }
    assert_eq!(fed, prompt);
    assert_eq!(s.n_past, 19);
    assert_eq!(s.mem_per_token, 10);
    assert_eq!(s.last_n_tokens, std::collections::VecDeque::from(vec![2, 1, 0, 3]));
}

#[test]
fn the_next_token_is_remembered() {
    let model = generation_model(12);
    let params = InferenceParameters::default();
    let mut s = model.start_session(ring_of(2));
    let id = s.infer_next_token(&model, &params, &as_bits(&[0.0, 0.1, 0.3, 0.2])).unwrap();
    assert_eq!(id, 2);
    assert_eq!(s.last_n_tokens, std::collections::VecDeque::from(vec![2, 0]));
    assert_eq!(s.n_past, 0);
    assert_eq!(s.last_logits, as_bits(&[0.0; 4]));
}

#[test]
fn the_end_of_the_document_ends_the_text() {
    assert_eq!(EOD_TOKEN_ID, 1);
    assert_eq!(OutputToken::sampled(1, "x".to_string()), OutputToken::EndOfText);
    assert_eq!(OutputToken::sampled(0, "x".to_string()), OutputToken::Token("x".to_string()));
    assert_eq!(OutputToken::sampled(2, String::new()), OutputToken::Token(String::new()));
    assert_eq!(OutputToken::Token("ab".to_string()).to_text(), "ab");
    assert_eq!(OutputToken::EndOfText.to_text(), "");
}

#[test]
fn generation_goes_on_until_the_limit() {
    let model = generation_model(12);
    let s = model.start_session(ring_of(2));
    let mut g = Generation::new(Some(2));
    assert!(g.wants_token(&s, &model));
    g.record(&OutputToken::Token("a".to_string()));
    assert!(g.wants_token(&s, &model));
    g.record(&OutputToken::Token("b".to_string()));
    assert!(!g.wants_token(&s, &model));
    assert_eq!(g, Generation { maximum_token_count: Some(2), tokens_processed: 2, ended: false });
    assert!(!Generation::new(Some(0)).wants_token(&s, &model));
}

#[test]
fn generation_ends_with_the_text() {
    let model = generation_model(12);
    let mut s = model.start_session(ring_of(2));
    let mut g = Generation::new(None);
    for _ in 0..100 {
        g.record(&OutputToken::Token("<|USER|".to_string()));
    }
    assert!(g.wants_token(&s, &model));
    g.record(&OutputToken::Token("<|USER|>".to_string()));
    assert!(!g.wants_token(&s, &model));
    assert_eq!(g.tokens_processed, 101);
    let mut g = Generation::new(None);
    g.record(&OutputToken::EndOfText);
    assert!(!g.wants_token(&s, &model));
    g.record(&OutputToken::Token("more".to_string()));
    assert!(!g.wants_token(&s, &model));
    let g = Generation::new(None);
    s.n_past = 11;
    assert!(g.wants_token(&s, &model));
    s.n_past = 12;
    assert!(!g.wants_token(&s, &model));
}

#[test]
fn generation_with_a_suppressed_end_runs_to_its_limit() {
    let model = generation_model(64);
    let lowest = F32Bits { bits: f32::NEG_INFINITY.to_bits() };
    let params = InferenceParameters {
        bias_tokens: wiz_rs::bias::TokenBias::new(vec![(EOD_TOKEN_ID, lowest)]),
        ..InferenceParameters::default()
    };
    let mut s = model.start_session(ring_of(2));
    let mut g = Generation::new(Some(16));
    let mut made = Vec::new();
    while g.wants_token(&s, &model) {
        // the end of the document always has the best logit
        let scaled = as_bits(&[0.5, 9.0, 0.25 + made.len() as f32, 1.0]);
        let id = s.infer_next_token(&model, &params, &scaled).unwrap();
        let outcome = pass_of(&model, &s, 1, as_bits(&[0.0; 4]), 8, 0, 0);
        model.evaluate(&mut s, &[id], outcome);
        let token = OutputToken::sampled(id, "t".to_string());
        assert_ne!(token, OutputToken::EndOfText);
        g.record(&token);
        made.push(id);
    }
    assert_eq!(made.len(), 16);
    assert_eq!(s.n_past, 16);
    assert_eq!(made[0], 3);
    assert_eq!(made[1], 2);
}

#[test]
fn default_statistics_are_zero() {
    assert_eq!(
        InferenceStats::default(),
        InferenceStats { feed_prompt_duration: 0, prompt_tokens: 0, predict_duration: 0, predict_tokens: 0 }
    );
}
