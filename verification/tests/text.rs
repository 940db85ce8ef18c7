use wiz_rs::bytes::{read_i32, read_u32};
use wiz_rs::cache::{snapshot_name, snapshot_name_for};
use wiz_rs::element::{BlockLayout, ElementType, ModelKVMemoryType, TypeTable};
use wiz_rs::error::{InferenceError, LoadError};
use wiz_rs::prompt::{chat_prompt, generate_prompt, trim_prompt_file, PROMPT_PREFIX};
use wiz_rs::search::{bytes_of, count_from, find};
use wiz_rs::stream::{
    failure_message, CompletionMessage, CompletionStream, InferenceResult, MessageKind, StreamStep,
};
use wiz_rs::text::push_decimal;

#[test]
fn little_endian_integers() {
    let bytes = [0x01, 0x02, 0x03, 0x04, 0xff, 0xff, 0xff, 0xff, 0x00, 0x00, 0x00, 0x80];
    assert_eq!(read_u32(&bytes, 0), Ok(0x04030201));
    assert_eq!(read_i32(&bytes, 0), Ok(0x04030201));
    assert_eq!(read_u32(&bytes, 1), Ok(0xff040302));
    assert_eq!(read_i32(&bytes, 1), Ok(0xff040302u32 as i32));
    assert_eq!(read_u32(&bytes, 4), Ok(u32::MAX));
    assert_eq!(read_i32(&bytes, 4), Ok(-1));
    assert_eq!(read_i32(&bytes, 8), Ok(i32::MIN));
    assert_eq!(read_i32(&bytes, 9), Err(LoadError::ReadExactFailed { bytes: 4 }));
    assert_eq!(read_u32(&bytes, 12), Err(LoadError::ReadExactFailed { bytes: 4 }));
    assert_eq!(read_u32(&bytes, usize::MAX), Err(LoadError::ReadExactFailed { bytes: 4 }));
    assert_eq!(read_u32(&bytes[..3], 0), Err(LoadError::ReadExactFailed { bytes: 4 }));
}

#[test]
fn decimal_numerals() {
    for n in [0u32, 1, 9, 10, 11, 99, 100, 101, 4096, 1_000_000, u32::MAX] {
        let mut out = String::from("x");
        push_decimal(&mut out, n);
        assert_eq!(out, format!("x{}", n));
    }
}

#[test]
fn storage_is_counted_in_whole_blocks() {
    let q = BlockLayout { type_size: 20, blck_size: 32 };
    assert_eq!(q.storage_bytes(0), 0);
    assert_eq!(q.storage_bytes(1), 0);
    assert_eq!(q.storage_bytes(2), 1);
    assert_eq!(q.storage_bytes(32), 20);
    assert_eq!(q.storage_bytes(33), 20);
    assert_eq!(q.storage_bytes(64), 40);
    let table = TypeTable::new(q, BlockLayout { type_size: 24, blck_size: 32 }).unwrap();
    assert_eq!(table.layout_of(ElementType::F32), BlockLayout { type_size: 4, blck_size: 1 });
    assert_eq!(table.layout_of(ElementType::F16), BlockLayout { type_size: 2, blck_size: 1 });
    assert_eq!(table.layout_of(ElementType::I32), BlockLayout { type_size: 4, blck_size: 1 });
    assert_eq!(table.layout_of(ElementType::Q4_0), q);
    assert_eq!(table.layout_of(ElementType::Q4_1), BlockLayout { type_size: 24, blck_size: 32 });
    assert!(table.is_valid());
    assert_eq!(TypeTable::new(BlockLayout { type_size: 0, blck_size: 32 }, q), None);
    assert_eq!(TypeTable::new(q, BlockLayout { type_size: 20, blck_size: 0 }), None);
    assert_eq!(TypeTable::new(q, BlockLayout { type_size: 0x10000, blck_size: 1 }), None);
}

#[test]
fn type_codes_of_the_file() {
    assert_eq!(ElementType::from_ftype(0), Some(ElementType::F32));
    assert_eq!(ElementType::from_ftype(1), Some(ElementType::F16));
    assert_eq!(ElementType::from_ftype(2), Some(ElementType::Q4_0));
    assert_eq!(ElementType::from_ftype(3), Some(ElementType::Q4_1));
    assert_eq!(ElementType::from_ftype(4), None);
    assert_eq!(ElementType::from_ftype(-1), None);
    assert_eq!(ElementType::from(ModelKVMemoryType::Float16), ElementType::F16);
    assert_eq!(ElementType::from(ModelKVMemoryType::Float32), ElementType::F32);
    assert_eq!(ModelKVMemoryType::Float16.element_size(), 2);
    assert_eq!(ModelKVMemoryType::Float32.element_size(), 4);
}

#[test]
fn snapshot_files_are_named_by_the_digest_of_the_prompt() {
    // SHA-256 of "abc" starts with ba7816bf, that of the empty text with e3b0c442
    assert_eq!(snapshot_name("abc"), "ba7816bf.bin");
    assert_eq!(snapshot_name(""), "e3b0c442.bin");
    assert_eq!(snapshot_name_for(&[0x00, 0x0f, 0xa0, 0xff, 0x12]), "000fa0ff.bin");
    assert_eq!(snapshot_name_for(&[0x12, 0x34, 0x56, 0x78]), "12345678.bin");
    assert_eq!(snapshot_name_for(&[0x9a, 0xbc, 0xde, 0xf0]), "9abcdef0.bin");
}

#[test]
fn prompts_are_put_together() {
    assert_eq!(generate_prompt("list files"), "list files\n\n### Response:\n```bash\n");
    assert_eq!(generate_prompt("{input}"), "{input}\n\n### Response:\n```bash\n");
    assert_eq!(generate_prompt(""), "\n\n### Response:\n```bash\n");
    assert_eq!(chat_prompt("hi"), "<|USER|>hi<|ASSISTANT|>");
    assert!(PROMPT_PREFIX.starts_with("### Instruction:\nConvert to bash command"));
    assert!(PROMPT_PREFIX.ends_with("\n\n### Input:\n"));
}

#[test]
fn a_prompt_file_loses_the_line_end_that_closes_it() {
    assert_eq!(trim_prompt_file("hello\n"), "hello");
    assert_eq!(trim_prompt_file("hello\r\n"), "hello");
    assert_eq!(trim_prompt_file("hello\r"), "hello");
    assert_eq!(trim_prompt_file("hello\n\n"), "hello\n");
    assert_eq!(trim_prompt_file("hello\n\r"), "hello\n");
    assert_eq!(trim_prompt_file("hello\r\r\n"), "hello\r");
    assert_eq!(trim_prompt_file("hello"), "hello");
    assert_eq!(trim_prompt_file("\n"), "");
    assert_eq!(trim_prompt_file(""), "");
    assert_eq!(trim_prompt_file("gr\u{fc}\u{df}e \u{2581}\n"), "gr\u{fc}\u{df}e \u{2581}");
}

#[test]
fn texts_are_searched_byte_by_byte() {
    assert_eq!(find(b"abcabc", b"bc"), Some(1));
    assert_eq!(find(b"abcabc", b"abcabc"), Some(0));
    assert_eq!(find(b"abcabc", b"abcabcd"), None);
    assert_eq!(find(b"abcabc", b"cb"), None);
    assert_eq!(find(b"abcabc", b""), Some(0));
    assert_eq!(find(b"", b""), Some(0));
    assert_eq!(find(b"", b"a"), None);
    assert_eq!(find(b"aab", b"ab"), Some(1));
    assert_eq!(count_from(b"a\nb\n\nc", 0, b'\n'), 3);
    assert_eq!(count_from(b"a\nb\n\nc", 2, b'\n'), 2);
    assert_eq!(count_from(b"a\nb\n\nc", 6, b'\n'), 0);
    assert_eq!(bytes_of("### Response:"), b"### Response:");
}

#[test]
fn a_served_reply_is_a_command_and_an_explanation() {
    let token = |t: &str| InferenceResult::Token(t.to_string());
    let sent = |t: &str, kind| StreamStep::Send(CompletionMessage { text: t.to_string(), kind });
    let mut stream = CompletionStream::new();
    assert_eq!(stream.step(token("ls")), sent("ls", MessageKind::Command));
    assert_eq!(stream.step(token(" -l")), sent(" -l", MessageKind::Command));
    assert_eq!(stream.step(token("``")), sent("``", MessageKind::Command));
    assert_eq!(stream.step(token("```")), StreamStep::Skip);
    assert_eq!(stream.step(token("Lists")), sent("Lists", MessageKind::Explanation));
    assert_eq!(
        stream.step(InferenceResult::Error("broken".to_string())),
        sent("broken", MessageKind::Error)
    );
    assert_eq!(stream.step(token(" files")), sent(" files", MessageKind::Explanation));
    assert_eq!(stream.step(token("```")), StreamStep::End);
    assert_eq!(stream.step(token("```")), StreamStep::End);
    let mut fresh = CompletionStream::default();
    assert_eq!(
        fresh.step(InferenceResult::Error("no".to_string())),
        sent("no", MessageKind::Error)
    );
    assert!(!fresh.saw_triple_backtick);
    assert_eq!(MessageKind::Command.name(), "command");
    assert_eq!(MessageKind::Explanation.name(), "explanation");
    assert_eq!(MessageKind::Error.name(), "error");
}

#[test]
fn failures_of_inference_have_their_messages() {
    assert_eq!(
        failure_message(&InferenceError::ContextFull),
        Some("Context is not large enough to fit the prompt.")
    );
    assert_eq!(
        failure_message(&InferenceError::TokenizationFailed),
        Some("Failed to tokenize initial prompt.")
    );
    assert_eq!(failure_message(&InferenceError::UserCallback { message: "x".to_string() }), None);
}
