use std::cmp::Ordering;
use wiz_rs::bias::fence;
use wiz_rs::bias::response;
use wiz_rs::bias::{BiasPolicy, TokenBias};
use wiz_rs::element::{BlockLayout, TypeTable};
use wiz_rs::hparams::Hyperparameters;
use wiz_rs::ieee::F32Bits;
use wiz_rs::model::Model;
use wiz_rs::params::InferenceParameters;
use wiz_rs::sampler::leader;
use wiz_rs::topk::descending;

fn bits(v: f32) -> F32Bits {
    F32Bits { bits: v.to_bits() }
}

fn scaled_of(values: &[f32]) -> Vec<F32Bits> {
    values.iter().map(|v| bits(*v)).collect()
}

fn sampling_model() -> Model {
    let types = TypeTable::new(
        BlockLayout { type_size: 20, blck_size: 32 },
        BlockLayout { type_size: 24, blck_size: 32 },
    )
    .unwrap();
    let h = Hyperparameters { d_model: 2, max_seq_len: 4, n_heads: 1, n_layers: 1, n_vocab: 5, ftype: 0 };
    Model::declare(h, types, 1).unwrap()
}

fn with_bias<B>(top_k: usize, bias_tokens: B) -> InferenceParameters<B> {
    InferenceParameters {
        n_threads: 1,
        n_batch: 1,
        top_k,
        top_p: bits(0.95),
        repeat_penalty: bits(0.0),
        temp: bits(1.0),
        bias_tokens,
    }
}

#[test]
fn default_inference_parameters() {
    let p = InferenceParameters::default();
    assert_eq!(p.n_threads, 4);
    assert_eq!(p.n_batch, 1);
    assert_eq!(p.top_k, 1);
    assert_eq!(f32::from_bits(p.top_p.bits), 0.95);
    assert_eq!(f32::from_bits(p.repeat_penalty.bits), 0.0);
    assert_eq!(f32::from_bits(p.temp.bits), 0.1);
    assert_eq!(p.bias_tokens.entries().len(), 0);
}

#[test]
fn the_total_order_key_orders_bit_patterns() {
    let ordered = [
        f32::from_bits(0xFFC0_0000), // a negative NaN
        f32::NEG_INFINITY,
        f32::MIN,
        -1.0,
        -f32::MIN_POSITIVE,
        -0.0,
        0.0,
        f32::MIN_POSITIVE,
        1.0,
        f32::MAX,
        f32::INFINITY,
        f32::NAN,
    ];
    for pair in ordered.windows(2) {
        assert!(bits(pair[0]).total_order_key() < bits(pair[1]).total_order_key());
        assert_eq!(pair[0].total_cmp(&pair[1]), Ordering::Less);
    }
    assert_eq!(bits(0.0).total_order_key(), 0);
    assert_eq!(bits(-0.0).total_order_key(), -1);
    assert_eq!(F32Bits::from_bits(0x7FFF_FFFF).total_order_key(), i32::MAX);
    assert_eq!(F32Bits::from_bits(0xFFFF_FFFF).total_order_key(), i32::MIN);
    assert_eq!(f32::from_bits(F32Bits::minus_one().to_bits()), -1.0);
    assert_eq!(F32Bits::zero().to_bits(), 0);
}

#[test]
fn the_best_token_is_chosen() {
    let model = sampling_model();
    let params = InferenceParameters::default();
    assert_eq!(model.sample_top_p_top_k(&scaled_of(&[0.1, 0.7, -3.0, 0.69, 0.0]), &params), 1);
    assert_eq!(model.sample_top_p_top_k(&scaled_of(&[0.1, 0.7, -3.0, 0.69, 9.0]), &params), 4);
    assert_eq!(model.sample_top_p_top_k(&scaled_of(&[-0.0, -0.1, -3.0, -0.7, 0.0]), &params), 4);
    assert_eq!(model.sample_top_p_top_k(&scaled_of(&[2.5]), &params), 0);
}

#[test]
fn greedy_choice_is_the_same_in_every_run() {
    let model = sampling_model();
    let params = InferenceParameters::default();
    let scaled = scaled_of(&[1.0, 3.0, 3.0, 2.0, 3.0]);
    let first = model.sample_top_p_top_k(&scaled, &params);
    assert!(first == 1 || first == 2 || first == 4);
    for _ in 0..8 {
        assert_eq!(model.sample_top_p_top_k(&scaled, &params), first);
    }
}

#[test]
fn every_top_k_gives_a_best_token() {
    let model = sampling_model();
    let scaled = scaled_of(&[0.1, 0.7, -3.0, 0.69, 0.0]);
    for top_k in [1, 2, 3, 5, 6, 1000] {
        let params = with_bias(top_k, TokenBias::default());
        assert_eq!(model.sample_top_p_top_k(&scaled, &params), 1);
    }
}

#[test]
fn values_that_are_not_numbers_are_ordered_too() {
    let model = sampling_model();
    let params = InferenceParameters::default();
    assert_eq!(model.sample_top_p_top_k(&scaled_of(&[1.0, f32::NAN, f32::INFINITY, 0.0, -1.0]), &params), 1);
    assert_eq!(
        model.sample_top_p_top_k(&scaled_of(&[1.0, -f32::NAN, f32::INFINITY, 0.0, -1.0]), &params),
        2
    );
    assert_eq!(
        model.sample_top_p_top_k(&scaled_of(&[f32::NEG_INFINITY, -f32::NAN, -f32::NAN, -f32::NAN, -f32::NAN]), &params),
        0
    );
}

#[test]
fn a_finite_bias_takes_the_place_of_the_logit() {
    let model = sampling_model();
    let scaled = scaled_of(&[0.1, 0.7, -3.0, 0.69, 0.0]);
    let down = with_bias(1, TokenBias::new(vec![(1, bits(-1.0))]));
    assert_eq!(model.sample_top_p_top_k(&scaled, &down), 3);
    let up = with_bias(1, TokenBias::new(vec![(2, bits(100.0))]));
    assert_eq!(model.sample_top_p_top_k(&scaled, &up), 2);
    let both = with_bias(1, TokenBias::new(vec![(1, bits(-1.0)), (3, bits(-2.0))]));
    assert_eq!(model.sample_top_p_top_k(&scaled, &both), 0);
}

#[test]
fn a_bias_that_is_not_a_number_takes_the_place_of_the_logit_too() {
    let model = sampling_model();
    let scaled = scaled_of(&[0.1, 0.7, -3.0, 0.69, 0.0]);
    let down = with_bias(1, TokenBias::new(vec![(1, bits(f32::NEG_INFINITY))]));
    assert_eq!(model.sample_top_p_top_k(&scaled, &down), 3);
    let up = with_bias(1, TokenBias::new(vec![(2, bits(f32::INFINITY))]));
    assert_eq!(model.sample_top_p_top_k(&scaled, &up), 2);
    let above = with_bias(1, TokenBias::new(vec![(2, bits(f32::INFINITY)), (4, bits(f32::NAN))]));
    assert_eq!(model.sample_top_p_top_k(&scaled, &above), 4);
    let below = with_bias(1, TokenBias::new(vec![(1, bits(-f32::NAN))]));
    assert_eq!(model.sample_top_p_top_k(&scaled, &below), 3);
}

#[test]
fn a_vanishing_temperature_still_gives_a_best_token() {
    let model = sampling_model();
    let params = InferenceParameters::default();
    let logits = [0.5f32, 2.0, -1.0, 1.5, 0.0];
    for temp in [1.0f32, 1.0e-3, 1.0e-30, 1.0e-38, 1.0e-45] {
        let scaled: Vec<f32> = logits.iter().map(|l| l / temp).collect();
        let id = model.sample_top_p_top_k(&scaled_of(&scaled), &params) as usize;
        let best = scaled.iter().cloned().fold(f32::NEG_INFINITY, f32::max);
        assert_eq!(scaled[id], best);
        assert!(logits[id] > 0.0);
    }
    // 0 / 0 is not a number, and is ranked all the same
    let scaled: Vec<f32> = logits.iter().map(|l| l / 0.0).collect();
    assert!(scaled[4].is_nan());
    let id = model.sample_top_p_top_k(&scaled_of(&scaled), &params);
    assert!(id < 5);
}

#[test]
fn the_end_of_the_document_can_be_kept_down() {
    let model = sampling_model();
    let params = with_bias(1, TokenBias::new(vec![(1, bits(f32::NEG_INFINITY))]));
    for scaled in [
        scaled_of(&[0.0, 50.0, -1.0, -2.0, -3.0]),
        scaled_of(&[-9.0, 1.0, -8.0, -7.0, -6.0]),
        scaled_of(&[-1.0e30, 0.0, -1.0e31, -1.0e32, -1.0e33]),
    ] {
        assert_ne!(model.sample_top_p_top_k(&scaled, &params), 1);
    }
}

#[test]
fn the_bias_table_is_sorted_and_keeps_the_first_of_equals() {
    let table = TokenBias::new(vec![
        (9, bits(0.9)),
        (2, bits(0.2)),
        (9, bits(9.9)),
        (5, bits(0.5)),
        (2, bits(2.2)),
        (0, bits(0.0)),
    ]);
    assert_eq!(
        table.entries(),
        &vec![(0, bits(0.0)), (2, bits(0.2)), (5, bits(0.5)), (9, bits(0.9))]
    );
    assert_eq!(table.get(2), Some(bits(0.2)));
    assert_eq!(table.get(9), Some(bits(0.9)));
    assert_eq!(table.get(0), Some(bits(0.0)));
    assert_eq!(table.get(1), None);
    assert_eq!(table.get(10), None);
    assert_eq!(BiasPolicy::get(&table, 5), Some(bits(0.5)));
    assert_eq!(BiasPolicy::get(&table, 6), None);
    assert_eq!(table.clone(), table);
    assert_eq!(TokenBias::default().get(0), None);
    assert_eq!(
        TokenBias::new(vec![(2, bits(1.0)), (1, bits(2.0))]),
        TokenBias::new(vec![(1, bits(2.0)), (2, bits(1.0))])
    );
}

#[test]
fn scored_tokens_are_ordered_by_falling_key() {
    assert_eq!(descending(&(5, 0), &(3, 1)), Ordering::Less);
    assert_eq!(descending(&(3, 0), &(5, 1)), Ordering::Greater);
    assert_eq!(descending(&(3, 0), &(3, 1)), Ordering::Equal);
    assert_eq!(descending(&(-1, 0), &(0, 1)), Ordering::Greater);
}

#[test]
fn the_leader_is_the_first_of_the_sorted() {
    assert_eq!(leader(vec![(9, 4), (7, 1), (8, 2)], 1), 4);
    assert_eq!(leader(vec![(9, 4), (7, 1), (8, 2)], 3), 4);
}

#[test]
fn a_reply_is_kept_going_until_it_has_four_lines() {
    let eod = 1;
    let minus_one = Some(F32Bits::minus_one());
    let mut policy = response::CustomTokenBias::new(String::new());
    assert_eq!(policy.get(eod), minus_one);
    assert_eq!(policy.get(0), None);
    assert_eq!(policy.get(2), None);
    policy.append("a\nb\nc\nd\ne");
    assert_eq!(policy.get(eod), None);
    policy.append("\n");
    assert_eq!(policy.get(eod), minus_one);
    // line feeds before the marker do not count
    let mut policy = response::CustomTokenBias::new("1\n2\n3\n4\n### Response:\nls\n\nlists".to_string());
    assert_eq!(policy.get(eod), minus_one);
    policy.append(" the\nfiles");
    assert_eq!(policy.get(eod), None);
    assert_eq!(policy.get(3), None);
    // the first marker counts
    let policy = response::CustomTokenBias::new("### Response:\n\n\n### Response:\nx".to_string());
    assert_eq!(policy.get(eod), None);
}

#[test]
fn a_reply_is_kept_going_until_its_code_block_is_closed() {
    let eod = 1;
    let minus_one = Some(F32Bits::minus_one());
    let mut policy = fence::CustomTokenBias::new(String::new());
    assert_eq!(policy.get(eod), minus_one);
    assert_eq!(policy.get(0), None);
    policy.append("ls -l\n");
    assert_eq!(policy.get(eod), minus_one);
    policy.append("```");
    assert_eq!(policy.get(eod), minus_one);
    policy.append("\n");
    assert_eq!(policy.get(eod), minus_one);
    policy.append("L");
    assert_eq!(policy.get(eod), None);
    policy.append("ists files.\n```\n");
    assert_eq!(policy.get(eod), None);
    assert_eq!(policy.get(7), None);
}
