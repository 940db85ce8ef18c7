use std::collections::VecDeque;
use wiz_rs::element::{BlockLayout, ModelKVMemoryType, TypeTable};
use wiz_rs::error::SnapshotError;
use wiz_rs::evaluator::EvalOutcome;
use wiz_rs::hparams::Hyperparameters;
use wiz_rs::ieee::F32Bits;
use wiz_rs::model::Model;
use wiz_rs::params::InferenceParameters;
use wiz_rs::session::{InferenceSession, InferenceSessionParameters};
use wiz_rs::snapshot::InferenceSnapshot;

/// The result of a forward pass of `n` tokens whose keys are all `key` and
/// whose values are all `value`.
fn passed(model: &Model, s: &InferenceSession, n: usize, logits: Vec<F32Bits>, used_mem: usize, key: u8, value: u8) -> EvalOutcome {
    let h = &model.hparams;
    let rows = (h.n_layers * h.d_model) as usize * n;
    EvalOutcome {
        logits,
        used_mem,
        keys: vec![key; rows * s.params.memory_k_type.element_size()],
        values: vec![value; rows * s.params.memory_v_type.element_size()],
    }
}

fn snapshot_model() -> Model {
    let types = TypeTable::new(
        BlockLayout { type_size: 20, blck_size: 32 },
        BlockLayout { type_size: 24, blck_size: 32 },
    )
    .unwrap();
    let h = Hyperparameters { d_model: 2, max_seq_len: 6, n_heads: 1, n_layers: 2, n_vocab: 3, ftype: 0 };
    Model::declare(h, types, 1).unwrap()
}

fn half_params(last_n_size: usize) -> InferenceSessionParameters {
    InferenceSessionParameters {
        last_n_size,
        memory_k_type: ModelKVMemoryType::Float16,
        memory_v_type: ModelKVMemoryType::Float16,
    }
}

fn logit_bits(values: &[f32]) -> Vec<F32Bits> {
    values.iter().map(|v| F32Bits { bits: v.to_bits() }).collect()
}

#[test]
fn a_snapshot_holds_the_session_as_it_stands() {
    let model = snapshot_model();
    let mut s = model.start_session(half_params(2));
    s.push_token(5);
    let outcome = passed(&model, &s, 1, logit_bits(&[1.0, 2.0, 3.0]), 64, 0, 0);
    model.evaluate(&mut s, &[5], outcome);
    s.memory_k[3] = 9;
    s.memory_v[7] = 8;
    let snapshot = s.get_snapshot();
    assert_eq!(snapshot.npast, 1);
    assert_eq!(snapshot.session_params, half_params(2));
    assert_eq!(snapshot.memory_k, &s.memory_k[..]);
    assert_eq!(snapshot.memory_v, &s.memory_v[..]);
    assert_eq!(snapshot.last_n_tokens, VecDeque::from(vec![5, 0]));
    assert_eq!(snapshot.logits, logit_bits(&[1.0, 2.0, 3.0]));
    let owned = snapshot.to_snapshot();
    assert_eq!(owned.npast, 1);
    assert_eq!(owned.memory_k, s.memory_k);
    assert_eq!(owned.memory_v, s.memory_v);
    assert_eq!(owned.last_n_tokens, s.last_n_tokens);
    assert_eq!(owned.last_logits, s.last_logits);
}

#[test]
fn a_restored_session_resumes_where_the_snapshot_was_taken() {
    let model = snapshot_model();
    let params = InferenceParameters::default();
    let mut s = model.start_session(half_params(2));
    s.push_token(2);
    let outcome = passed(&model, &s, 1, logit_bits(&[0.0, 0.5, 2.0]), 64, 0, 0);
    model.evaluate(&mut s, &[2], outcome);
    s.memory_k[0] = 1;
    s.memory_v[1] = 2;
    let snapshot = s.get_snapshot().to_snapshot();
    assert!(snapshot.is_restorable(&model.hparams));
    let mut again = model.session_from_snapshot(snapshot).unwrap();
    assert_eq!(again.n_past, s.n_past);
    assert_eq!(again.params, s.params);
    assert_eq!(again.memory_k, s.memory_k);
    assert_eq!(again.memory_v, s.memory_v);
    assert_eq!(again.last_n_tokens, s.last_n_tokens);
    assert_eq!(again.last_logits, s.last_logits);
    assert_eq!(again.mem_per_token, 0);
    // four tokens from each, with the same results of the forward passes
    let passes = [[3.0, 1.0, 2.0], [0.0, 1.0, 0.5], [-1.0, -2.0, -0.5], [0.25, 0.5, 0.125]];
    let mut scaled = s.last_logits.clone();
    let mut from_session = Vec::new();
    let mut from_restored = Vec::new();
    for pass in passes {
        let a = s.infer_next_token(&model, &params, &scaled).unwrap();
        let b = again.infer_next_token(&model, &params, &scaled).unwrap();
        let outcome = passed(&model, &s, 1, logit_bits(&pass), 64, 0, 0);
        model.evaluate(&mut s, &[a], outcome);
        let outcome = passed(&model, &again, 1, logit_bits(&pass), 64, 0, 0);
        model.evaluate(&mut again, &[b], outcome);
        from_session.push(a);
        from_restored.push(b);
        scaled = s.last_logits.clone();
    }
    assert_eq!(from_session, vec![2, 0, 1, 2]);
    assert_eq!(from_restored, from_session);
    assert_eq!(again.last_n_tokens, s.last_n_tokens);
    assert_eq!(again.n_past, 5);
}

#[test]
fn a_restored_ring_is_as_long_as_the_snapshots() {
    let model = snapshot_model();
    let snapshot = InferenceSnapshot {
        npast: 6,
        session_params: half_params(100),
        memory_k: vec![7; 6 * 2 * 2 * 2],
        memory_v: vec![8; 6 * 2 * 2 * 2],
        last_n_tokens: VecDeque::from(vec![3, 2, 1]),
        last_logits: logit_bits(&[0.0, 0.0, 1.0]),
    };
    let s = model.session_from_snapshot(snapshot).unwrap();
    assert_eq!(s.params, half_params(3));
    assert_eq!(s.n_past, 6);
    assert_eq!(s.memory_k, vec![7; 48]);
}

#[test]
fn a_snapshot_of_another_shape_is_a_size_mismatch() {
    let model = snapshot_model();
    let snapshot = InferenceSnapshot {
        npast: 1,
        session_params: InferenceSessionParameters {
            last_n_size: 1,
            memory_k_type: ModelKVMemoryType::Float16,
            memory_v_type: ModelKVMemoryType::Float32,
        },
        memory_k: vec![0; 48],
        memory_v: vec![0; 48],
        last_n_tokens: VecDeque::from(vec![0]),
        last_logits: logit_bits(&[0.0, 0.0, 1.0]),
    };
    assert_eq!(
        model.session_from_snapshot(snapshot).err(),
        Some(SnapshotError::MemorySizeMismatch { self_size: 48 + 96, input_size: 96 })
    );
    let snapshot = InferenceSnapshot {
        npast: 1,
        session_params: half_params(1),
        memory_k: vec![0; 47],
        memory_v: vec![0; 48],
        last_n_tokens: VecDeque::from(vec![0]),
        last_logits: logit_bits(&[0.0, 0.0, 1.0]),
    };
    assert_eq!(
        model.session_from_snapshot(snapshot).err(),
        Some(SnapshotError::MemorySizeMismatch { self_size: 96, input_size: 95 })
    );
}

#[test]
fn a_snapshot_beyond_the_model_is_not_restorable() {
    let model = snapshot_model();
    let mut snapshot = InferenceSnapshot {
        npast: 7,
        session_params: half_params(1),
        memory_k: vec![0; 48],
        memory_v: vec![0; 48],
        last_n_tokens: VecDeque::from(vec![0]),
        last_logits: logit_bits(&[0.0, 0.0, 1.0]),
    };
    assert!(!snapshot.is_restorable(&model.hparams));
    snapshot.npast = 6;
    assert!(snapshot.is_restorable(&model.hparams));
    snapshot.last_logits.pop();
    assert!(!snapshot.is_restorable(&model.hparams));
}

fn le64(v: u64) -> Vec<u8> {
    v.to_le_bytes().to_vec()
}

fn le32(v: u32) -> Vec<u8> {
    v.to_le_bytes().to_vec()
}

/// The record of a snapshot with one position, a ring of two tokens, key
/// memory in half and value memory in single precision.
fn small_record() -> Vec<u8> {
    [
        le64(1),
        le64(2),
        le32(0),
        le32(1),
        le64(3),
        vec![10, 11, 12],
        le64(2),
        vec![20, 21],
        le64(2),
        le32(7),
        le32(0),
        le64(2),
        le32(1.5f32.to_bits()),
        le32((-0.0f32).to_bits()),
    ]
    .concat()
}

fn small_snapshot() -> InferenceSnapshot {
    InferenceSnapshot {
        npast: 1,
        session_params: InferenceSessionParameters {
            last_n_size: 2,
            memory_k_type: ModelKVMemoryType::Float16,
            memory_v_type: ModelKVMemoryType::Float32,
        },
        memory_k: vec![10, 11, 12],
        memory_v: vec![20, 21],
        last_n_tokens: VecDeque::from(vec![7, 0]),
        last_logits: logit_bits(&[1.5, -0.0]),
    }
}

#[test]
fn a_snapshot_is_written_field_by_field() {
    let snapshot = small_snapshot();
    let borrowed = wiz_rs::snapshot::InferenceSnapshotRef {
        npast: snapshot.npast,
        session_params: snapshot.session_params,
        memory_k: &snapshot.memory_k,
        memory_v: &snapshot.memory_v,
        last_n_tokens: snapshot.last_n_tokens.clone(),
        logits: snapshot.last_logits.clone(),
    };
    assert_eq!(borrowed.write(), Ok(small_record()));
}

#[test]
fn a_snapshot_is_read_back_as_it_was_written() {
    assert_eq!(InferenceSnapshot::read(&small_record()), Ok(small_snapshot()));
    let mut longer = small_record();
    longer.extend_from_slice(&[1, 2, 3]);
    assert_eq!(InferenceSnapshot::read(&longer), Ok(small_snapshot()));
    let model = snapshot_model();
    let mut s = model.start_session(half_params(3));
    s.push_token(2);
    let outcome = passed(&model, &s, 1, logit_bits(&[0.0, -7.5, 2.0]), 64, 0, 0);
    model.evaluate(&mut s, &[2], outcome);
    s.memory_k[5] = 55;
    let bytes = s.get_snapshot().write().unwrap();
    let back = InferenceSnapshot::read(&bytes).unwrap();
    assert_eq!(back, s.get_snapshot().to_snapshot());
    let again = model.session_from_snapshot(back).unwrap();
    assert_eq!(again.memory_k, s.memory_k);
    assert_eq!(again.last_logits, s.last_logits);
    assert_eq!(again.last_n_tokens, s.last_n_tokens);
    assert_eq!(again.n_past, 1);
}

#[test]
fn bytes_that_are_no_snapshot_are_refused() {
    let is_serialization = |r: Result<InferenceSnapshot, SnapshotError>| {
        matches!(r, Err(SnapshotError::Serialization { .. }))
    };
    assert!(is_serialization(InferenceSnapshot::read(&[])));
    let mut short = small_record();
    short.pop();
    assert!(is_serialization(InferenceSnapshot::read(&short)));
    let mut unknown_type = small_record();
    unknown_type[16] = 2;
    assert!(is_serialization(InferenceSnapshot::read(&unknown_type)));
    let mut unknown_type = small_record();
    unknown_type[20] = 9;
    assert!(is_serialization(InferenceSnapshot::read(&unknown_type)));
}

#[test]
fn the_fields_of_a_record_become_a_snapshot() {
    let fields = wiz_rs::codec::SnapshotFields {
        npast: 1,
        last_n_size: 2,
        memory_k_type: 0,
        memory_v_type: 1,
        memory_k: vec![10, 11, 12],
        memory_v: vec![20, 21],
        last_n_tokens: VecDeque::from(vec![7, 0]),
        logits: vec![1.5f32.to_bits(), (-0.0f32).to_bits()],
    };
    assert_eq!(InferenceSnapshot::from_fields(fields), Ok(small_snapshot()));
    assert_eq!(ModelKVMemoryType::Float16.code(), 0);
    assert_eq!(ModelKVMemoryType::Float32.code(), 1);
    assert_eq!(ModelKVMemoryType::from_code(1), Some(ModelKVMemoryType::Float32));
    assert_eq!(ModelKVMemoryType::from_code(2), None);
}
