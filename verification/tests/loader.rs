use wiz_rs::element::{BlockLayout, ElementType, TypeTable};
use wiz_rs::entry::read_entry_header;
use wiz_rs::error::LoadError;
use wiz_rs::hparams::{parse_header, Hyperparameters};
use wiz_rs::loader::{LoadProgress, LoadedModel};
use wiz_rs::model::Model;
use wiz_rs::parts::{precedes, select_parts, starts_with};
use wiz_rs::sizing::weight_context_size;
use wiz_rs::tensor::{tensor_name, PartFill};
use wiz_rs::vocab::parse_vocabulary;

fn types() -> TypeTable {
    TypeTable::new(
        BlockLayout { type_size: 20, blck_size: 32 },
        BlockLayout { type_size: 24, blck_size: 32 },
    )
    .unwrap()
}

/// Loads the parts; the result, and the progress that was made.
fn load(parts: &Vec<Vec<u8>>, n_ctx: i32) -> (Result<LoadedModel, LoadError>, Vec<LoadProgress>) {
    let mut progress = Vec::new();
    let result = Model::load(parts, n_ctx, &types(), &mut progress);
    (result, progress)
}

fn push_i32(out: &mut Vec<u8>, v: i32) {
    out.extend_from_slice(&v.to_le_bytes());
}

fn header(d_model: i32, max_seq_len: i32, n_heads: i32, n_layers: i32, n_vocab: i32, ftype: i32) -> Vec<u8> {
    let mut out = vec![0x67, 0x67, 0x6d, 0x6c];
    for v in [d_model, max_seq_len, n_heads, n_layers, n_vocab, ftype] {
        push_i32(&mut out, v);
    }
    out
}

fn word(out: &mut Vec<u8>, bytes: &[u8], score: f32) {
    push_i32(out, bytes.len() as i32);
    out.extend_from_slice(bytes);
    out.extend_from_slice(&score.to_le_bytes());
}

fn entry(out: &mut Vec<u8>, name: &str, dims: &[i32], ftype: i32, data: &[u8]) {
    push_i32(out, dims.len() as i32);
    push_i32(out, name.len() as i32);
    push_i32(out, ftype);
    for d in dims {
        push_i32(out, *d);
    }
    out.extend_from_slice(name.as_bytes());
    out.extend_from_slice(data);
}

/// The tensors of a model of width 2 with one layer and three words, as
/// (name, elements per row, rows).
fn tiny_shapes() -> Vec<(&'static str, i32, i32)> {
    vec![
        ("transformer.wte.weight", 2, 3),
        ("transformer.ln_f.weight", 2, 1),
        ("transformer.blocks.0.ln_1.weight", 2, 1),
        ("transformer.blocks.0.attn.Wqkv.weight", 2, 6),
        ("transformer.blocks.0.attn.out_proj.weight", 2, 2),
        ("transformer.blocks.0.ln_2.weight", 2, 1),
        ("transformer.blocks.0.mlp.mlp_up.weight", 2, 8),
        ("transformer.blocks.0.mlp.mlp_down.weight", 8, 2),
    ]
}

fn tiny_metadata() -> Vec<u8> {
    let mut out = header(2, 4, 1, 1, 3, 0);
    word(&mut out, b"<unk>", 0.0);
    word(&mut out, "\u{2581}hello".as_bytes(), -1.5);
    word(&mut out, &[0xff, 0xfe], -2.0);
    out
}

fn pattern(len: usize, seed: u8) -> Vec<u8> {
    (0..len).map(|i| seed.wrapping_add(i as u8).wrapping_mul(7)).collect()
}

fn tiny_model_file() -> Vec<u8> {
    let mut out = tiny_metadata();
    for (k, (name, ne0, ne1)) in tiny_shapes().into_iter().enumerate() {
        let data = pattern((ne0 * ne1 * 4) as usize, k as u8);
        if ne1 == 1 {
            entry(&mut out, name, &[ne0], 0, &data);
        } else {
            entry(&mut out, name, &[ne0, ne1], 0, &data);
        }
    }
    out
}

#[test]
fn load_places_every_declared_tensor() {
    let (loaded, progress) = load(&vec![tiny_model_file()], 4);
    let loaded = loaded.unwrap();
    let model = &loaded.model;
    assert_eq!(
        model.hparams,
        Hyperparameters { d_model: 2, max_seq_len: 4, n_heads: 1, n_layers: 1, n_vocab: 3, ftype: 0 }
    );
    assert_eq!(model.tensors.len(), 1 * 6 + 2);
    for (k, (name, ne0, ne1)) in tiny_shapes().into_iter().enumerate() {
        let t = &model.tensors[k];
        assert_eq!(t.name, name);
        assert_eq!((t.ne0, t.ne1), (ne0 as u64, ne1 as u64));
        assert_eq!(t.data, pattern((ne0 * ne1 * 4) as usize, k as u8));
        assert_eq!(t.fill, vec![PartFill::Whole]);
        assert!(t.is_complete());
    }
    let placed = progress
        .iter()
        .filter(|e| matches!(e, LoadProgress::PartTensorLoaded { .. }))
        .count();
    assert_eq!(placed, 8);
}

#[test]
fn load_reads_the_vocabulary() {
    let loaded = load(&vec![tiny_model_file()], 4).0.unwrap();
    let v = &loaded.vocabulary;
    assert_eq!(v.entries.len(), 3);
    assert_eq!(v.entries[0].word, "<unk>");
    assert_eq!(v.entries[1].word, " hello");
    assert_eq!(f32::from_bits(v.entries[1].score.bits), -1.5);
    assert_eq!(v.entries[2].word, "<unk>");
    assert_eq!(v.entries[2].score.bits, 0);
    assert_eq!(v.bad_tokens, vec![2]);
}

#[test]
fn load_reports_progress_in_order() {
    let file = tiny_model_file();
    let data_bytes: usize = tiny_shapes().iter().map(|(_, a, b)| (a * b * 4) as usize).sum();
    let (loaded, p) = load(&vec![file], 4);
    let loaded = loaded.unwrap();
    assert_eq!(p[0], LoadProgress::HyperparametersLoaded(loaded.model.hparams));
    assert_eq!(p[1], LoadProgress::BadToken { index: 2 });
    // wte 24, per layer 8+48+16+8+64+64, memory 2*4*1*2*4, overhead (6+16)*256
    assert_eq!(p[2], LoadProgress::ContextSize { bytes: 24 + 208 + 64 + 5632 });
    assert_eq!(p[3], LoadProgress::PartLoading { part: 0, current_part: 1, total_parts: 1 });
    assert_eq!(p[4], LoadProgress::PartTensorLoaded { part: 0, current_tensor: 1, tensor_count: 8 });
    assert_eq!(p[11], LoadProgress::PartTensorLoaded { part: 0, current_tensor: 8, tensor_count: 8 });
    assert_eq!(p[12], LoadProgress::PartLoaded { part: 0, byte_size: data_bytes, tensor_count: 8 });
    assert_eq!(p.len(), 13);
}

#[test]
fn load_rejects_an_unknown_tensor() {
    let mut file = tiny_metadata();
    entry(&mut file, "transformer.nope", &[2], 0, &[0; 8]);
    assert_eq!(
        load(&vec![file], 4).0.err(),
        Some(LoadError::UnknownTensor { tensor_name: "transformer.nope".to_string(), part: 0 })
    );
}

#[test]
fn load_rejects_a_missing_tensor() {
    let mut file = tiny_metadata();
    entry(&mut file, "transformer.wte.weight", &[2, 3], 0, &[0; 24]);
    assert_eq!(
        load(&vec![file], 4).0.err(),
        Some(LoadError::TensorWrongSize { tensor_name: "transformer.ln_f.weight".to_string(), part: 0 })
    );
}

/// The file of part `part` of `n_parts` of the tiny model: every tensor of
/// one dimension whole, every other tensor with this part's share of each row.
fn tiny_part_file(part: usize, n_parts: usize) -> Vec<u8> {
    let mut out = tiny_metadata();
    for (k, (name, ne0, ne1)) in tiny_shapes().into_iter().enumerate() {
        let data = pattern((ne0 * ne1 * 4) as usize, k as u8);
        if ne1 == 1 {
            entry(&mut out, name, &[ne0], 0, &data);
        } else {
            let row = (ne0 * 4) as usize;
            let frag = row / n_parts;
            let mut share = Vec::new();
            for r in 0..ne1 as usize {
                share.extend_from_slice(&data[r * row + part * frag..r * row + (part + 1) * frag]);
            }
            entry(&mut out, name, &[ne0 / n_parts as i32, ne1], 0, &share);
        }
    }
    out
}

#[test]
fn split_parts_assemble_every_row_from_its_halves() {
    let parts = vec![tiny_part_file(0, 2), tiny_part_file(1, 2)];
    let (loaded, p) = load(&parts, 4);
    let loaded = loaded.unwrap();
    for (k, (name, ne0, ne1)) in tiny_shapes().into_iter().enumerate() {
        let t = &loaded.model.tensors[k];
        assert_eq!(t.name, name);
        assert_eq!(t.data, pattern((ne0 * ne1 * 4) as usize, k as u8));
        if ne1 == 1 {
            assert_eq!(t.fill, vec![PartFill::Whole, PartFill::Whole]);
        } else {
            assert_eq!(t.fill, vec![PartFill::Fragment, PartFill::Fragment]);
        }
    }
    assert_eq!(p[3], LoadProgress::PartLoading { part: 0, current_part: 1, total_parts: 2 });
    assert_eq!(p[13], LoadProgress::PartLoading { part: 1, current_part: 2, total_parts: 2 });
    // the three norms whole (8 bytes each), half of the 216 bytes of the matrices
    assert_eq!(p[12], LoadProgress::PartLoaded { part: 0, byte_size: 24 + 108, tensor_count: 8 });
    assert_eq!(p[22], LoadProgress::PartLoaded { part: 1, byte_size: 24 + 108, tensor_count: 8 });
}

#[test]
fn split_part_writes_its_share_of_each_row() {
    let mut file = tiny_metadata();
    // second half of each of the two rows of the 2 x 2 output projection
    entry(&mut file, "transformer.blocks.0.attn.out_proj.weight", &[1, 2], 0, &[1, 2, 3, 4, 5, 6, 7, 8]);
    let mut model = Model::declare(parse_header(&file).unwrap(), types(), 2).unwrap();
    let at = tiny_metadata().len();
    let (next, held) = model.place_entry(&file, at, 1).unwrap();
    assert_eq!(next, file.len());
    assert_eq!(held, 8);
    assert_eq!(model.tensors[4].data, vec![0, 0, 0, 0, 1, 2, 3, 4, 0, 0, 0, 0, 5, 6, 7, 8]);
    assert_eq!(model.tensors[4].fill, vec![PartFill::Untouched, PartFill::Fragment]);
    assert!(!model.tensors[4].is_complete());
    assert_eq!(model.first_incomplete(), Some(0));
}

#[test]
fn a_missing_part_leaves_the_load_incomplete() {
    let parts = vec![tiny_part_file(0, 2), tiny_metadata()];
    assert_eq!(
        load(&parts, 4).0.err(),
        Some(LoadError::TensorWrongSize { tensor_name: "transformer.wte.weight".to_string(), part: 1 })
    );
}

#[test]
fn a_tensor_cannot_be_placed_twice() {
    let mut file = tiny_model_file();
    entry(&mut file, "transformer.ln_f.weight", &[2], 0, &[0; 8]);
    assert_eq!(
        load(&vec![file], 4).0.err(),
        Some(LoadError::TensorWrongSize { tensor_name: "transformer.ln_f.weight".to_string(), part: 0 })
    );
}

#[test]
fn load_rejects_a_wrong_shape() {
    let mut file = tiny_metadata();
    entry(&mut file, "transformer.wte.weight", &[3, 2], 0, &[0; 24]);
    assert_eq!(
        load(&vec![file], 4).0.err(),
        Some(LoadError::TensorWrongSize { tensor_name: "transformer.wte.weight".to_string(), part: 0 })
    );
}

#[test]
fn load_rejects_a_wrong_byte_size() {
    let mut file = tiny_metadata();
    // half-precision data for a single-precision tensor
    entry(&mut file, "transformer.ln_f.weight", &[2], 1, &[0; 4]);
    assert_eq!(
        load(&vec![file], 4).0.err(),
        Some(LoadError::TensorWrongSize { tensor_name: "transformer.ln_f.weight".to_string(), part: 0 })
    );
}

#[test]
fn load_rejects_an_invalid_ftype() {
    let mut file = tiny_metadata();
    entry(&mut file, "transformer.ln_f.weight", &[2], 7, &[0; 8]);
    assert_eq!(
        load(&vec![file], 4).0.err(),
        Some(LoadError::InvalidFtype { ftype: 7, part: 0 })
    );
}

#[test]
fn load_rejects_three_dimensions() {
    let mut file = tiny_metadata();
    entry(&mut file, "transformer.ln_f.weight", &[2, 1, 1], 0, &[0; 8]);
    assert_eq!(
        load(&vec![file], 4).0.err(),
        Some(LoadError::TensorWrongSize { tensor_name: "transformer.ln_f.weight".to_string(), part: 0 })
    );
}

#[test]
fn load_rejects_truncated_data() {
    let mut file = tiny_metadata();
    entry(&mut file, "transformer.ln_f.weight", &[2], 0, &[0; 5]);
    assert_eq!(load(&vec![file], 4).0.err(), Some(LoadError::IO));
}

#[test]
fn load_rejects_a_name_that_is_not_utf8() {
    let mut file = tiny_metadata();
    push_i32(&mut file, 1);
    push_i32(&mut file, 2);
    push_i32(&mut file, 0);
    push_i32(&mut file, 2);
    file.extend_from_slice(&[0xff, 0xff]);
    assert_eq!(load(&vec![file], 4).0.err(), Some(LoadError::InvalidUtf8));
}

#[test]
fn load_rejects_a_negative_name_length() {
    let mut file = tiny_metadata();
    push_i32(&mut file, 1);
    push_i32(&mut file, -1);
    push_i32(&mut file, 0);
    push_i32(&mut file, 2);
    assert_eq!(load(&vec![file], 4).0.err(), Some(LoadError::InvalidIntegerConversion));
}

#[test]
fn load_rejects_a_short_header() {
    assert_eq!(
        load(&vec![vec![0u8; 27]], 4).0.err(),
        Some(LoadError::ReadExactFailed { bytes: 4 })
    );
    assert_eq!(
        load(&vec![], 4).0.err(),
        Some(LoadError::ReadExactFailed { bytes: 4 })
    );
}

#[test]
fn load_rejects_an_unknown_weight_type() {
    let file = header(2, 4, 1, 1, 0, 4);
    assert_eq!(
        load(&vec![file], 4).0.err(),
        Some(LoadError::HyperparametersF16Invalid { value: 4 })
    );
}

#[test]
fn load_rejects_negative_dimensions() {
    let file = header(-2, 4, 1, 1, 0, 0);
    assert_eq!(load(&vec![file], 4).0.err(), Some(LoadError::InvalidIntegerConversion));
    let file = header(2, 4, 1, 1, 0, 0);
    assert_eq!(load(&vec![file], -1).0.err(), Some(LoadError::InvalidIntegerConversion));
}

#[test]
fn load_rejects_a_truncated_vocabulary() {
    let mut file = header(2, 4, 1, 1, 2, 0);
    word(&mut file, b"a", 0.0);
    push_i32(&mut file, 3);
    file.extend_from_slice(b"ab");
    assert_eq!(
        load(&vec![file.clone()], 4).0.err(),
        Some(LoadError::ReadExactFailed { bytes: 3 })
    );
    file.extend_from_slice(b"c");
    assert_eq!(
        load(&vec![file], 4).0.err(),
        Some(LoadError::ReadExactFailed { bytes: 4 })
    );
    let mut file = header(2, 4, 1, 1, 1, 0);
    push_i32(&mut file, -5);
    assert_eq!(load(&vec![file], 4).0.err(), Some(LoadError::InvalidIntegerConversion));
}

#[test]
fn header_fields_are_read_in_file_order() {
    let file = header(1, -2, 3, 0x01020304, i32::MIN, i32::MAX);
    assert_eq!(
        parse_header(&file),
        Ok(Hyperparameters {
            d_model: 1,
            max_seq_len: -2,
            n_heads: 3,
            n_layers: 0x01020304,
            n_vocab: i32::MIN,
            ftype: i32::MAX
        })
    );
}

#[test]
fn vocabulary_ends_where_the_tensors_start() {
    let file = tiny_model_file();
    let read = parse_vocabulary(&file, 28, 3);
    let (vocabulary, next) = (read.vocabulary, read.end.unwrap());
    assert_eq!(next, tiny_metadata().len());
    assert_eq!(vocabulary.entries.len(), 3);
    let h = read_entry_header(&file, next, 0).unwrap();
    assert_eq!(h.name, "transformer.wte.weight");
    assert_eq!((h.n_dims, h.ftype, h.ne0, h.ne1), (2, 0, 2, 3));
    assert_eq!(h.data_at, next + 12 + 8 + 22);
}

#[test]
fn tensor_names_follow_the_layers() {
    assert_eq!(tensor_name(0), "transformer.wte.weight");
    assert_eq!(tensor_name(1), "transformer.ln_f.weight");
    assert_eq!(tensor_name(2), "transformer.blocks.0.ln_1.weight");
    assert_eq!(tensor_name(2 + 6 * 12 + 1), "transformer.blocks.12.attn.Wqkv.weight");
    assert_eq!(tensor_name(2 + 6 * 105 + 5), "transformer.blocks.105.mlp.mlp_down.weight");
}

#[test]
fn declared_tensors_have_the_types_of_the_model() {
    let h = Hyperparameters { d_model: 64, max_seq_len: 8, n_heads: 2, n_layers: 2, n_vocab: 10, ftype: 2 };
    let model = Model::declare(h, types(), 1).unwrap();
    assert_eq!(model.tensors.len(), 2 * 6 + 2);
    assert_eq!(model.wtype, ElementType::Q4_0);
    let kinds: Vec<ElementType> = model.tensors.iter().map(|t| t.etype).collect();
    let f = ElementType::F32;
    let q = ElementType::Q4_0;
    assert_eq!(kinds, vec![q, f, f, q, q, f, q, q, f, q, q, f, q, q]);
    // 64 x 192 elements in blocks of 32 elements and 20 bytes
    assert_eq!(model.tensors[3].data.len(), 64 * 192 * 20 / 32);
    assert_eq!(model.find(&"transformer.blocks.1.ln_2.weight".to_string()), Some(11));
    assert_eq!(model.find(&"transformer.blocks.2.ln_2.weight".to_string()), None);
}

#[test]
fn weight_arena_size_is_the_sum_of_its_terms() {
    let h = Hyperparameters { d_model: 64, max_seq_len: 8, n_heads: 2, n_layers: 2, n_vocab: 10, ftype: 2 };
    let q4_0 = types().layout_of(ElementType::Q4_0);
    let wte = 64 * 10 * 20 / 32;
    let ln_1 = 2 * 64 * 4;
    let wqkv = 2 * 64 * 64 * 3 * 20 / 32;
    let out_proj = 2 * 64 * 64 * 20 / 32;
    let ln_2 = 2 * 64 * 20 / 32;
    let mlp = 2 * 4 * 64 * 64 * 20 / 32;
    let memory = 16 * 2 * 64 * 4;
    let overhead = (6 + 16 * 2) * 256;
    assert_eq!(
        weight_context_size(&h, 16, q4_0),
        Some(wte + ln_1 + wqkv + out_proj + ln_2 + mlp + mlp + 2 * memory + overhead)
    );
    assert_eq!(weight_context_size(&h, -1, q4_0), None);
    // a term that is not a whole number of bytes is rounded down
    let odd = Hyperparameters { d_model: 3, max_seq_len: 1, n_heads: 1, n_layers: 0, n_vocab: 1, ftype: 2 };
    assert_eq!(weight_context_size(&odd, 0, q4_0), Some(1 + 6 * 256));
}

#[test]
fn parts_are_the_files_with_the_main_name_as_prefix() {
    let names: Vec<String> =
        ["model.bin.2", "other.bin", "model.bin", "model.bin.10", "model.bi", "model.bin.1"]
            .iter()
            .map(|s| s.to_string())
            .collect();
    assert_eq!(select_parts("model.bin", &names), vec![2, 5, 3, 0]);
    assert_eq!(select_parts("nothing", &names), Vec::<usize>::new());
    let twice: Vec<String> = ["b", "a", "b", "a"].iter().map(|s| s.to_string()).collect();
    assert_eq!(select_parts("", &twice), vec![1, 3, 0, 2]);
}

#[test]
fn names_are_ordered_byte_by_byte() {
    assert!(precedes(b"", b""));
    assert!(precedes(b"", b"a"));
    assert!(!precedes(b"a", b""));
    assert!(precedes(b"ab", b"ab"));
    assert!(precedes(b"ab", b"abc"));
    assert!(!precedes(b"abc", b"ab"));
    assert!(precedes(b"abz", b"ac"));
    assert!(!precedes(&[0x80], &[0x7f]));
    assert!(starts_with(b"model.bin.1", b"model.bin"));
    assert!(starts_with(b"model.bin", b"model.bin"));
    assert!(!starts_with(b"model.bi", b"model.bin"));
    assert!(!starts_with(b"xodel.bin", b"model.bin"));
}

#[test]
fn a_split_that_is_not_even_is_refused() {
    // one element of four bytes cannot be shared among eight parts
    let h = Hyperparameters { d_model: 1, max_seq_len: 1, n_heads: 1, n_layers: 0, n_vocab: 1, ftype: 0 };
    let mut model = Model::declare(h, types(), 8).unwrap();
    let mut file = Vec::new();
    entry(&mut file, "transformer.wte.weight", &[0, 1], 0, &[]);
    assert_eq!(
        model.place_entry(&file, 0, 3),
        Err(LoadError::TensorWrongSize { tensor_name: "transformer.wte.weight".to_string(), part: 3 })
    );
    assert_eq!(model.tensors[0].fill, vec![PartFill::Untouched; 8]);
    assert_eq!(model.tensors[0].data, vec![0; 4]);
    // three elements per row do not divide among two parts
    let h = Hyperparameters { d_model: 3, max_seq_len: 1, n_heads: 1, n_layers: 0, n_vocab: 2, ftype: 0 };
    let mut model = Model::declare(h, types(), 2).unwrap();
    let mut file = Vec::new();
    entry(&mut file, "transformer.wte.weight", &[1, 2], 0, &[0; 8]);
    assert_eq!(
        model.place_entry(&file, 0, 0),
        Err(LoadError::TensorWrongSize { tensor_name: "transformer.wte.weight".to_string(), part: 0 })
    );
    // a row of blocks that is not full: 48 elements in blocks of 32
    let h = Hyperparameters { d_model: 48, max_seq_len: 1, n_heads: 1, n_layers: 0, n_vocab: 2, ftype: 2 };
    let mut model = Model::declare(h, types(), 2).unwrap();
    assert_eq!(model.tensors[0].data.len(), 48 * 2 * 20 / 32);
    let mut file = Vec::new();
    entry(&mut file, "transformer.wte.weight", &[24, 2], 2, &[0; 30]);
    assert_eq!(
        model.place_entry(&file, 0, 0),
        Err(LoadError::TensorWrongSize { tensor_name: "transformer.wte.weight".to_string(), part: 0 })
    );
}

#[test]
fn a_placed_tensor_knows_where_its_data_stood() {
    let parts = vec![tiny_part_file(0, 2), tiny_part_file(1, 2)];
    let loaded = load(&parts, 4).0.unwrap();
    let at = tiny_metadata().len() + 12 + 8 + "transformer.wte.weight".len();
    let wte = &loaded.model.tensors[0];
    assert_eq!(wte.origin, vec![at, at]);
    for j in 0..wte.data.len() {
        let (row, column) = (j / 8, j % 8);
        let part = column / 4;
        assert_eq!(wte.data[j], parts[part][wte.origin[part] + row * 4 + column % 4]);
    }
    let ln_f = &loaded.model.tensors[1];
    assert_eq!(ln_f.data, parts[0][ln_f.origin[0]..ln_f.origin[0] + 8].to_vec());
}

#[test]
fn progress_made_before_a_failure_is_kept() {
    // the weight type is unknown: the header and the vocabulary were read
    let mut file = header(2, 4, 1, 1, 2, 9);
    word(&mut file, &[0xff], 1.0);
    word(&mut file, b"a", 1.0);
    let (result, progress) = load(&vec![file], 4);
    assert_eq!(result.err(), Some(LoadError::HyperparametersF16Invalid { value: 9 }));
    assert_eq!(
        progress,
        vec![
            LoadProgress::HyperparametersLoaded(Hyperparameters {
                d_model: 2,
                max_seq_len: 4,
                n_heads: 1,
                n_layers: 1,
                n_vocab: 2,
                ftype: 9
            }),
            LoadProgress::BadToken { index: 0 },
        ]
    );
    // the vocabulary ends early: the bad token before its end was read
    let mut file = header(2, 4, 1, 1, 3, 0);
    word(&mut file, b"a", 1.0);
    word(&mut file, &[0xc0], 1.0);
    let (result, progress) = load(&vec![file], 4);
    assert_eq!(result.err(), Some(LoadError::ReadExactFailed { bytes: 4 }));
    assert_eq!(progress.len(), 2);
    assert_eq!(progress[1], LoadProgress::BadToken { index: 1 });
    // an unknown tensor after a placed one: the placed one was reported
    let mut file = tiny_metadata();
    entry(&mut file, "transformer.ln_f.weight", &[2], 0, &[0; 8]);
    entry(&mut file, "transformer.nope", &[2], 0, &[0; 8]);
    let (result, progress) = load(&vec![file], 4);
    assert_eq!(
        result.err(),
        Some(LoadError::UnknownTensor { tensor_name: "transformer.nope".to_string(), part: 0 })
    );
    assert_eq!(progress.len(), 5);
    assert_eq!(progress[3], LoadProgress::PartLoading { part: 0, current_part: 1, total_parts: 1 });
    assert_eq!(progress[4], LoadProgress::PartTensorLoaded { part: 0, current_tensor: 1, tensor_count: 8 });
    // nothing was read
    let (result, progress) = load(&vec![vec![0; 3]], 4);
    assert_eq!(result.err(), Some(LoadError::ReadExactFailed { bytes: 4 }));
    assert_eq!(progress, vec![]);
}

#[test]
fn a_vocabulary_that_ends_early_hands_back_what_was_read() {
    let mut file = header(2, 4, 1, 1, 3, 0);
    word(&mut file, b"ab", 1.0);
    word(&mut file, &[0xff, 0xff], 2.0);
    push_i32(&mut file, 7);
    let read = parse_vocabulary(&file, 28, 3);
    assert_eq!(read.end, Err(LoadError::ReadExactFailed { bytes: 7 }));
    assert_eq!(read.vocabulary.entries.len(), 2);
    assert_eq!(read.vocabulary.entries[0].word, "ab");
    assert_eq!(read.vocabulary.entries[1].word, "<unk>");
    assert_eq!(read.vocabulary.bad_tokens, vec![1]);
}

#[test]
fn the_name_of_an_entry_is_looked_up_before_its_dimensions_are_counted() {
    let mut file = tiny_metadata();
    entry(&mut file, "transformer.nope", &[], 0, &[]);
    assert_eq!(
        load(&vec![file], 4).0.err(),
        Some(LoadError::UnknownTensor { tensor_name: "transformer.nope".to_string(), part: 0 })
    );
    let mut file = tiny_metadata();
    push_i32(&mut file, -3);
    push_i32(&mut file, 4);
    push_i32(&mut file, 0);
    file.extend_from_slice(b"nope");
    assert_eq!(
        load(&vec![file], 4).0.err(),
        Some(LoadError::UnknownTensor { tensor_name: "nope".to_string(), part: 0 })
    );
    let mut file = tiny_metadata();
    entry(&mut file, "transformer.ln_f.weight", &[], 0, &[0; 8]);
    assert_eq!(
        load(&vec![file], 4).0.err(),
        Some(LoadError::TensorWrongSize { tensor_name: "transformer.ln_f.weight".to_string(), part: 0 })
    );
    let file = tiny_metadata();
    let mut with_entry = file.clone();
    entry(&mut with_entry, "ab", &[], 0, &[]);
    let h = read_entry_header(&with_entry, file.len(), 0).unwrap();
    assert_eq!((h.n_dims, h.ne0, h.ne1), (0, 1, 1));
    assert_eq!(h.name, "ab");
    assert_eq!(h.data_at, file.len() + 12 + 2);
}

#[test]
fn an_unknown_type_code_is_told_before_an_uneven_split() {
    // 4 x 2 elements in 3 parts: the shape agrees by whole division only
    let h = Hyperparameters { d_model: 4, max_seq_len: 1, n_heads: 1, n_layers: 0, n_vocab: 2, ftype: 0 };
    let mut model = Model::declare(h, types(), 3).unwrap();
    let mut file = Vec::new();
    entry(&mut file, "transformer.wte.weight", &[1, 2], 7, &[0; 8]);
    assert_eq!(model.place_entry(&file, 0, 0), Err(LoadError::InvalidFtype { ftype: 7, part: 0 }));
    let mut file = Vec::new();
    entry(&mut file, "transformer.wte.weight", &[1, 2], 0, &[0; 8]);
    assert_eq!(
        model.place_entry(&file, 0, 0),
        Err(LoadError::TensorWrongSize { tensor_name: "transformer.wte.weight".to_string(), part: 0 })
    );
    // a wrong shape is told before the type code
    let mut file = Vec::new();
    entry(&mut file, "transformer.wte.weight", &[2, 2], 7, &[0; 16]);
    assert_eq!(
        model.place_entry(&file, 0, 0),
        Err(LoadError::TensorWrongSize { tensor_name: "transformer.wte.weight".to_string(), part: 0 })
    );
}

#[test]
fn a_later_part_passes_over_a_whole_tensor_without_reading_it() {
    let h = Hyperparameters { d_model: 2, max_seq_len: 1, n_heads: 1, n_layers: 0, n_vocab: 2, ftype: 0 };
    let mut model = Model::declare(h, types(), 2).unwrap();
    let mut file = Vec::new();
    entry(&mut file, "transformer.ln_f.weight", &[2], 0, &[1, 2, 3]);
    let data_at = file.len() - 3;
    // part 1 passes over the eight bytes, of which only three are there
    assert_eq!(model.place_entry(&file, 0, 1), Ok((file.len(), 3)));
    assert_eq!(model.tensors[1].fill, vec![PartFill::Untouched, PartFill::Whole]);
    assert_eq!(model.tensors[1].data, vec![0; 8]);
    // part 0 has to read them
    assert_eq!(model.place_entry(&file, 0, 0), Err(LoadError::IO));
    file.extend_from_slice(&[4, 5, 6, 7, 8, 9]);
    assert_eq!(model.place_entry(&file, 0, 0), Ok((data_at + 8, 8)));
    assert_eq!(model.tensors[1].data, vec![1, 2, 3, 4, 5, 6, 7, 8]);
}
