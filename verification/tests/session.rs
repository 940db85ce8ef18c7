use std::collections::VecDeque;
use wiz_rs::element::{BlockLayout, ModelKVMemoryType, TypeTable};
use wiz_rs::error::InferenceError;
use wiz_rs::evaluator::{EvalOutcome, MemorySpan, FIRST_RUN_SCRATCH};
use wiz_rs::hparams::Hyperparameters;
use wiz_rs::ieee::F32Bits;
use wiz_rs::model::Model;
use wiz_rs::params::InferenceParameters;
use wiz_rs::session::{InferenceSession, InferenceSessionParameters};
use wiz_rs::sizing::session_context_size;

/// The result of a forward pass of `n` tokens whose keys are all `key` and
/// whose values are all `value`.
fn outcome_of(model: &Model, s: &InferenceSession, n: usize, logits: Vec<F32Bits>, used_mem: usize, key: u8, value: u8) -> EvalOutcome {
    let h = &model.hparams;
    let rows = (h.n_layers * h.d_model) as usize * n;
    EvalOutcome {
        logits,
        used_mem,
        keys: vec![key; rows * s.params.memory_k_type.element_size()],
        values: vec![value; rows * s.params.memory_v_type.element_size()],
    }
}

fn session_model(max_seq_len: i32, n_vocab: i32) -> Model {
    let types = TypeTable::new(
        BlockLayout { type_size: 20, blck_size: 32 },
        BlockLayout { type_size: 24, blck_size: 32 },
    )
    .unwrap();
    let h = Hyperparameters { d_model: 4, max_seq_len, n_heads: 2, n_layers: 3, n_vocab, ftype: 0 };
    Model::declare(h, types, 1).unwrap()
}

fn small_params(last_n_size: usize) -> InferenceSessionParameters {
    InferenceSessionParameters {
        last_n_size,
        memory_k_type: ModelKVMemoryType::Float16,
        memory_v_type: ModelKVMemoryType::Float32,
    }
}

fn logits_of(values: &[f32]) -> Vec<F32Bits> {
    values.iter().map(|v| F32Bits { bits: v.to_bits() }).collect()
}

fn holds_for(session: &InferenceSession, model: &Model) {
    let h = &model.hparams;
    assert!(session.n_past <= h.max_seq_len as usize);
    assert_eq!(session.last_logits.len(), h.n_vocab as usize);
    assert_eq!(session.last_n_tokens.len(), session.params.last_n_size);
}

#[test]
fn default_session_parameters() {
    assert_eq!(
        InferenceSessionParameters::default(),
        InferenceSessionParameters {
            last_n_size: 512,
            memory_k_type: ModelKVMemoryType::Float32,
            memory_v_type: ModelKVMemoryType::Float32,
        }
    );
}

#[test]
fn a_new_session_is_blank() {
    let model = session_model(5, 7);
    let s = model.start_session(small_params(3));
    assert_eq!(s.n_past, 0);
    assert_eq!(s.mem_per_token, 0);
    assert_eq!(s.last_n_tokens, VecDeque::from(vec![0, 0, 0]));
    assert_eq!(s.last_logits, vec![F32Bits { bits: 0 }; 7]);
    assert_eq!(s.memory_k, vec![0u8; 5 * 3 * 4 * 2]);
    assert_eq!(s.memory_v, vec![0u8; 5 * 3 * 4 * 4]);
    assert_eq!(s.params, small_params(3));
    holds_for(&s, &model);
}

#[test]
fn session_arena_holds_both_memories_and_the_overhead() {
    let model = session_model(5, 7);
    assert_eq!(
        session_context_size(&model.hparams, &small_params(3)),
        Some(5 * 3 * 4 * 2 + 5 * 3 * 4 * 4 + (5 + 10 * 3) * 256)
    );
}

#[test]
fn the_ring_keeps_the_newest_tokens_first() {
    let model = session_model(5, 7);
    let mut s = model.start_session(small_params(3));
    s.push_token(11);
    assert_eq!(s.last_n_tokens, VecDeque::from(vec![11, 0, 0]));
    s.push_token(12);
    s.push_token(13);
    s.push_token(14);
    assert_eq!(s.last_n_tokens, VecDeque::from(vec![14, 13, 12]));
    holds_for(&s, &model);
    let mut empty = model.start_session(small_params(0));
    empty.push_token(11);
    assert_eq!(empty.last_n_tokens.len(), 0);
    let mut many = model.start_session(small_params(3));
    many.push_token(9);
    many.push_tokens(&[1, 2]);
    assert_eq!(many.last_n_tokens, VecDeque::from(vec![2, 1, 9]));
    many.push_tokens(&[3, 4, 5, 6, 7]);
    assert_eq!(many.last_n_tokens, VecDeque::from(vec![7, 6, 5]));
    many.push_tokens(&[]);
    assert_eq!(many.last_n_tokens, VecDeque::from(vec![7, 6, 5]));
}

#[test]
fn evaluation_advances_the_session_by_the_batch() {
    let model = session_model(5, 2);
    let mut s = model.start_session(small_params(3));
    let outcome = outcome_of(&model, &s, 3, logits_of(&[0.5, -0.5]), 1001, 7, 9);
    model.evaluate(&mut s, &[4, 5, 6], outcome);
    // in each of the three layers the first three of five rows are written
    let mut keys = vec![0u8; 5 * 3 * 4 * 2];
    let mut values = vec![0u8; 5 * 3 * 4 * 4];
    for layer in 0..3 {
        for j in 0..3 * 4 * 2 {
            keys[layer * 5 * 4 * 2 + j] = 7;
        }
        for j in 0..3 * 4 * 4 {
            values[layer * 5 * 4 * 4 + j] = 9;
        }
    }
    assert_eq!(s.memory_k, keys);
    assert_eq!(s.memory_v, values);
    assert_eq!(s.n_past, 3);
    assert_eq!(s.last_logits, logits_of(&[0.5, -0.5]));
    assert_eq!(s.mem_per_token, 333);
    holds_for(&s, &model);
    let mut outcome = outcome_of(&model, &s, 1, logits_of(&[1.5, 2.5]), 9999, 0, 0);
    outcome.keys = (1..=3 * 4 * 2).collect();
    model.evaluate(&mut s, &[7], outcome);
    // the fourth row of each layer holds the keys of the token
    for layer in 0..3 {
        let row = layer * 5 * 4 * 2 + 3 * 4 * 2;
        let written: Vec<u8> = (1 + layer * 8..=8 + layer * 8).map(|b| b as u8).collect();
        assert_eq!(s.memory_k[row..row + 8], written[..]);
        assert_eq!(s.memory_k[row - 8..row], [7u8; 8]);
        assert_eq!(s.memory_k[row + 8..row + 16], [0u8; 8]);
    }
    assert_eq!(s.n_past, 4);
    assert_eq!(s.last_logits, logits_of(&[1.5, 2.5]));
    assert_eq!(s.mem_per_token, 333);
    assert_eq!(s.last_n_tokens, VecDeque::from(vec![0, 0, 0]));
    holds_for(&s, &model);
}

#[test]
fn a_plan_gives_the_spans_of_the_batch() {
    let model = session_model(5, 7);
    let mut s = model.start_session(small_params(3));
    s.n_past = 2;
    let plan = model.plan_evaluation(&s, 6, 3);
    assert_eq!(plan.n_threads, 6);
    assert_eq!((plan.n_tokens, plan.n_past, plan.n_ctx), (3, 2, 5));
    assert_eq!((plan.d_model, plan.n_heads, plan.n_layers, plan.n_vocab), (4, 2, 3, 7));
    assert_eq!(plan.head_dim, 2);
    assert_eq!((plan.key_size, plan.value_size), (2, 4));
    assert_eq!(plan.scratch_bytes, FIRST_RUN_SCRATCH);
    assert_eq!(plan.scratch_bytes, 1024 * 1024 * 1024);
    assert_eq!(plan.logits_offset, 7 * 2 * 4);
    assert_eq!(plan.logits_bytes, 7 * 4);
    // layer 1 starts after the 5 rows of layer 0; the batch starts at row 2
    assert_eq!(plan.key_slot(1), MemorySpan { offset: 2 * 4 * (5 + 2), elements: 3 * 4 });
    assert_eq!(plan.value_slot(1), MemorySpan { offset: 4 * 4 * (5 + 2), elements: 3 * 4 });
    assert_eq!(plan.key_window(2), MemorySpan { offset: 2 * 5 * 2 * 4, elements: 5 * 4 });
    assert_eq!(plan.value_window(2), MemorySpan { offset: 2 * 5 * 4 * 4, elements: 5 * 4 });
    let last = plan.value_window(2);
    assert_eq!(last.offset + last.elements * 4, s.memory_v.len());
    assert_eq!(plan.projection_offset(0), 0);
    assert_eq!(plan.projection_offset(1), 16);
    assert_eq!(plan.projection_offset(2), 32);
}

#[test]
fn scratch_is_a_tenth_more_than_measured() {
    let model = session_model(5, 7);
    let mut s = model.start_session(small_params(3));
    s.mem_per_token = 10;
    assert_eq!(model.plan_evaluation(&s, 1, 1).scratch_bytes, 11);
    assert_eq!(model.plan_evaluation(&s, 1, 3).scratch_bytes, 33);
    s.mem_per_token = 7;
    // 1.1 * 7 * 3 = 23.1
    assert_eq!(model.plan_evaluation(&s, 1, 3).scratch_bytes, 24);
    s.mem_per_token = usize::MAX;
    assert_eq!(model.plan_evaluation(&s, 1, 2).scratch_bytes, usize::MAX);
}

#[test]
fn context_overflow_leaves_the_session_as_it_was() {
    let model = session_model(5, 2);
    let params = InferenceParameters::default();
    let mut s = model.start_session(small_params(3));
    s.n_past = 3;
    let scaled = logits_of(&[0.0, 1.0]);
    let id = s.infer_next_token(&model, &params, &scaled).unwrap();
    assert_eq!(id, 1);
    let outcome = outcome_of(&model, &s, 1, logits_of(&[0.0, 1.0]), 10, 0, 0);
    model.evaluate(&mut s, &[id], outcome);
    assert_eq!(s.n_past, 4);
    let before = (s.n_past, s.mem_per_token, s.last_n_tokens.clone(), s.last_logits.clone());
    assert_eq!(s.infer_next_token(&model, &params, &scaled), Err(InferenceError::ContextFull));
    assert_eq!((s.n_past, s.mem_per_token, s.last_n_tokens.clone(), s.last_logits.clone()), before);
    assert_eq!(s.memory_k.len(), 5 * 3 * 4 * 2);
    holds_for(&s, &model);
    // the window ends at its last position but one
    assert!(s.is_context_full(&model, 1));
    s.n_past = 3;
    assert!(!s.is_context_full(&model, 1));
    assert!(s.is_context_full(&model, 2));
}
