use spirv_reflect::enums::{Capability, Decoration, ExecutionModel, StorageClass};
use spirv_reflect::parse::{parse_spirv, Instruction};
use spirv_reflect::Error;

fn words_to_bytes_le(words: &[u32]) -> Vec<u8> {
    let mut bytes = Vec::new();
    for w in words {
        bytes.extend_from_slice(&w.to_le_bytes());
    }
    bytes
}

fn words_to_bytes_be(words: &[u32]) -> Vec<u8> {
    let mut bytes = Vec::new();
    for w in words {
        bytes.extend_from_slice(&w.to_be_bytes());
    }
    bytes
}

const MAGIC: u32 = 0x0723_0203;

fn header(bound: u32) -> Vec<u32> {
    vec![MAGIC, 0x0001_0000, 0, bound, 0]
}

#[test]
fn parses_header_and_capability() {
    let mut words = header(8);
    words.extend_from_slice(&[(2 << 16) | 17, 1]);
    let spirv = parse_spirv(&words_to_bytes_le(&words)).unwrap();
    assert_eq!(spirv.version_major, 1);
    assert_eq!(spirv.version_minor, 0);
    assert_eq!(spirv.bound, 8);
    assert_eq!(spirv.instructions, vec![Instruction::Capability {
        capability: Capability::Shader,
    }]);
}

#[test]
fn parses_big_endian_modules() {
    let mut words = header(8);
    words.extend_from_slice(&[(2 << 16) | 17, 1]);
    let spirv = parse_spirv(&words_to_bytes_be(&words)).unwrap();
    assert_eq!(spirv.instructions, vec![Instruction::Capability {
        capability: Capability::Shader,
    }]);
}

#[test]
fn rejects_bad_magic() {
    let words = vec![0xDEAD_BEEF, 0x0001_0000, 0, 8, 0];
    assert_eq!(parse_spirv(&words_to_bytes_le(&words)), Err(Error::MalformedBinary));
}

#[test]
fn rejects_short_header() {
    let words = vec![MAGIC, 0x0001_0000, 0];
    assert_eq!(parse_spirv(&words_to_bytes_le(&words)), Err(Error::MalformedBinary));
}

#[test]
fn rejects_ragged_byte_length() {
    let mut bytes = words_to_bytes_le(&header(8));
    bytes.push(0);
    assert_eq!(parse_spirv(&bytes), Err(Error::MalformedBinary));
}

#[test]
fn rejects_truncated_instruction() {
    let mut words = header(8);
    // word count 3, but only one more word follows
    words.extend_from_slice(&[(3 << 16) | 17, 1]);
    assert_eq!(parse_spirv(&words_to_bytes_le(&words)), Err(Error::MalformedBinary));
}

#[test]
fn rejects_zero_word_count() {
    let mut words = header(8);
    words.push(17);
    assert_eq!(parse_spirv(&words_to_bytes_le(&words)), Err(Error::MalformedBinary));
}

#[test]
fn keeps_unknown_opcodes() {
    let mut words = header(8);
    // OpSource is irrelevant to reflection and must be preserved opaquely
    words.extend_from_slice(&[(3 << 16) | 3, 2, 450]);
    let spirv = parse_spirv(&words_to_bytes_le(&words)).unwrap();
    assert_eq!(spirv.instructions, vec![Instruction::Unknown {
        opcode: 3,
        operands: vec![2, 450],
    }]);
}

#[test]
fn decodes_names_with_their_bytes() {
    let mut words = header(8);
    // OpName 9 "main"
    words.extend_from_slice(&[(4 << 16) | 5, 9, 0x6E69_616D, 0]);
    let spirv = parse_spirv(&words_to_bytes_le(&words)).unwrap();
    assert_eq!(spirv.instructions, vec![Instruction::Name {
        target_id: 9,
        name: "main".to_string(),
    }]);
}

#[test]
fn decodes_multibyte_utf8_names() {
    let mut words = header(8);
    // OpName 9 "é": bytes C3 A9 00 00
    words.extend_from_slice(&[(3 << 16) | 5, 9, 0x0000_A9C3]);
    let spirv = parse_spirv(&words_to_bytes_le(&words)).unwrap();
    assert_eq!(spirv.instructions, vec![Instruction::Name {
        target_id: 9,
        name: "\u{e9}".to_string(),
    }]);
}

#[test]
fn rejects_invalid_utf8_names() {
    let mut words = header(8);
    // a lone continuation byte is not UTF-8
    words.extend_from_slice(&[(3 << 16) | 5, 9, 0x0000_0080 | 0x0000_0000]);
    assert_eq!(parse_spirv(&words_to_bytes_le(&words)), Err(Error::MalformedBinary));
}

#[test]
fn rejects_unterminated_names() {
    let mut words = header(8);
    words.extend_from_slice(&[(3 << 16) | 5, 9, 0x6161_6161]);
    assert_eq!(parse_spirv(&words_to_bytes_le(&words)), Err(Error::MalformedBinary));
}

#[test]
fn decodes_entry_point_interface_after_name() {
    let mut words = header(8);
    // OpEntryPoint Fragment 4 "main" 29 37
    words.extend_from_slice(&[(7 << 16) | 15, 4, 4, 0x6E69_616D, 0, 29, 37]);
    let spirv = parse_spirv(&words_to_bytes_le(&words)).unwrap();
    assert_eq!(spirv.instructions, vec![Instruction::EntryPoint {
        execution: ExecutionModel::Fragment,
        id: 4,
        name: "main".to_string(),
        interface: vec![29, 37],
    }]);
}

#[test]
fn decodes_variables_and_decorations() {
    let mut words = header(16);
    words.extend_from_slice(&[(4 << 16) | 59, 8, 9, 1]);
    words.extend_from_slice(&[(4 << 16) | 71, 9, 30, 0]);
    let spirv = parse_spirv(&words_to_bytes_le(&words)).unwrap();
    assert_eq!(spirv.instructions, vec![
        Instruction::Variable {
            result_type_id: 8,
            result_id: 9,
            storage_class: StorageClass::Input,
            initializer: None,
        },
        Instruction::Decorate {
            target_id: 9,
            decoration: Decoration::Location,
            params: vec![0],
        },
    ]);
}
