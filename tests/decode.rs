use kedge_wx::error::KedgeError;
use kedge_wx::module_decoder::parse_module;
use kedge_wx::reader::Reader;
use kedge_wx::types::ValType;

const HEADER: [u8; 8] = [0x00, 0x61, 0x73, 0x6D, 0x01, 0x00, 0x00, 0x00];

fn module_bytes(sections: &[(u8, Vec<u8>)]) -> Vec<u8> {
    let mut out = HEADER.to_vec();
    for (id, payload) in sections {
        out.push(*id);
        out.push(payload.len() as u8);
        out.extend_from_slice(payload);
    }
    out
}

fn read_u32(bytes: &[u8]) -> Result<u32, KedgeError> {
    Reader::new(bytes).read_u32_leb128()
}

fn read_i32(bytes: &[u8]) -> Result<i32, KedgeError> {
    Reader::new(bytes).read_i32_leb128()
}

#[test]
fn u32_leb_known_encodings() {
    assert_eq!(read_u32(&[0x00]), Ok(0));
    assert_eq!(read_u32(&[0x7F]), Ok(127));
    assert_eq!(read_u32(&[0x80, 0x01]), Ok(128));
    assert_eq!(read_u32(&[0xE5, 0x8E, 0x26]), Ok(624485));
    assert_eq!(read_u32(&[0xFF, 0xFF, 0xFF, 0xFF, 0x0F]), Ok(u32::MAX));
}

#[test]
fn u32_leb_advances_by_encoding_length() {
    let bytes = [0xE5, 0x8E, 0x26, 0x99];
    let mut r = Reader::new(&bytes);
    assert_eq!(r.read_u32_leb128(), Ok(624485));
    assert_eq!(r.offset(), 3);
    assert_eq!(r.peek(), Some(0x99));
}

#[test]
fn u32_leb_too_many_continuation_bytes_overflows() {
    let bytes = [0x80, 0x80, 0x80, 0x80, 0x80, 0x80, 0x00];
    let mut r = Reader::new(&bytes);
    assert_eq!(r.read_u32_leb128(), Err(KedgeError::DecodeError("LEB128 overflow")));
    assert_eq!(r.offset(), 0);
}

#[test]
fn u32_leb_five_continuation_bytes_accepted() {
    assert_eq!(read_u32(&[0x81, 0x80, 0x80, 0x80, 0x80, 0x00]), Ok(1));
}

#[test]
fn u32_leb_truncated_fails() {
    assert_eq!(read_u32(&[0x80, 0x80]), Err(KedgeError::DecodeError("EOF reached")));
    assert_eq!(read_u32(&[]), Err(KedgeError::DecodeError("EOF reached")));
}

#[test]
fn i32_leb_known_encodings() {
    assert_eq!(read_i32(&[0x00]), Ok(0));
    assert_eq!(read_i32(&[0x7F]), Ok(-1));
    assert_eq!(read_i32(&[0x3F]), Ok(63));
    assert_eq!(read_i32(&[0x40]), Ok(-64));
    assert_eq!(read_i32(&[0xC0, 0x00]), Ok(64));
    assert_eq!(read_i32(&[0xC0, 0xBB, 0x78]), Ok(-123456));
    assert_eq!(read_i32(&[0x80, 0x80, 0x80, 0x80, 0x78]), Ok(i32::MIN));
    assert_eq!(read_i32(&[0xFF, 0xFF, 0xFF, 0xFF, 0x07]), Ok(i32::MAX));
}

#[test]
fn i32_leb_too_many_continuation_bytes_overflows() {
    let bytes = [0xFF, 0xFF, 0xFF, 0xFF, 0xFF, 0xFF, 0x7F];
    assert_eq!(read_i32(&bytes), Err(KedgeError::DecodeError("signed LEB128 overflow")));
}

#[test]
fn reader_bounds() {
    let bytes = [1u8, 2, 3];
    let mut r = Reader::new(&bytes);
    assert_eq!(r.read_bytes(4), Err(KedgeError::DecodeError("not enough bytes")));
    assert_eq!(r.offset(), 0);
    assert_eq!(r.read_bytes(2), Ok(&bytes[0..2]));
    assert_eq!(r.read_u8(), Ok(3));
    assert!(r.is_done());
    assert_eq!(r.peek(), None);
    assert_eq!(r.read_u8(), Err(KedgeError::DecodeError("EOF reached")));
    assert_eq!(r.seek(4), Err(KedgeError::DecodeError("seek out of bounds")));
    assert_eq!(r.seek(1), Ok(()));
    assert_eq!(r.read_u8(), Ok(2));
    assert_eq!(r.read_bytes(usize::MAX), Err(KedgeError::DecodeError("not enough bytes")));
}

#[test]
fn zero_buffers_fail_on_header() {
    for len in [0usize, 4, 8, 100] {
        let bytes = vec![0u8; len];
        assert!(matches!(parse_module(&bytes), Err(KedgeError::DecodeError(_))));
    }
    for len in [4usize, 8, 100] {
        let bytes = vec![0u8; len];
        assert!(matches!(
            parse_module(&bytes),
            Err(KedgeError::DecodeError("Invalid WASM magic header"))
        ));
    }
}

#[test]
fn wrong_version_rejected() {
    let bytes = [0x00, 0x61, 0x73, 0x6D, 0x02, 0x00, 0x00, 0x00];
    assert!(matches!(
        parse_module(&bytes),
        Err(KedgeError::DecodeError("Unsupported WASM version"))
    ));
}

#[test]
fn header_only_is_empty_module() {
    let m = parse_module(&HEADER).unwrap();
    assert_eq!(m.types.len(), 0);
    assert_eq!(m.functions.len(), 0);
    assert_eq!(m.start_function, None);
}

#[test]
fn sections_decode_in_order() {
    let bytes = module_bytes(&[
        (1, vec![2, 0x60, 1, 0x7F, 1, 0x7E, 0x60, 0, 0]),
        (0, vec![9, 9, 9]),
        (3, vec![2, 1, 0]),
        (10, vec![2, 2, 0, 0x0B, 1, 0x0B]),
    ]);
    let m = parse_module(&bytes).unwrap();
    assert_eq!(m.types.len(), 2);
    assert_eq!(m.types[0].params, vec![ValType::I32]);
    assert_eq!(m.types[0].results, vec![ValType::I64]);
    assert!(m.types[1].params.is_empty());
    assert_eq!(m.functions.len(), 2);
    assert_eq!(m.functions[0].type_index, 1);
    assert_eq!(m.functions[0].body, vec![0, 0x0B]);
    assert_eq!(m.functions[1].type_index, 0);
    assert_eq!(m.functions[1].body, vec![0x0B]);
    assert!(m.functions.iter().all(|f| f.locals.is_empty()));
    assert_eq!(m.start_function, None);
    assert!(m.get_function(2).is_none());
    assert_eq!(m.get_func_type(1).unwrap().results.len(), 0);
}

#[test]
fn function_code_count_mismatch_rejected() {
    let bytes = module_bytes(&[
        (1, vec![1, 0x60, 0, 0]),
        (3, vec![2, 0, 0]),
        (10, vec![1, 2, 0, 0x0B]),
    ]);
    assert!(matches!(
        parse_module(&bytes),
        Err(KedgeError::DecodeError("Mismatch between function and code sections"))
    ));
}

#[test]
fn unsupported_value_type_rejected() {
    let bytes = module_bytes(&[(1, vec![1, 0x60, 1, 0x7D, 0])]);
    assert!(matches!(
        parse_module(&bytes),
        Err(KedgeError::DecodeError("Unsupported value type"))
    ));
}

#[test]
fn bad_type_form_rejected() {
    let bytes = module_bytes(&[(1, vec![1, 0x61, 0, 0])]);
    assert!(matches!(
        parse_module(&bytes),
        Err(KedgeError::DecodeError("Expected function type (0x60)"))
    ));
}

#[test]
fn truncated_section_rejected() {
    let mut bytes = HEADER.to_vec();
    bytes.extend_from_slice(&[1, 10, 1, 0x60]);
    assert!(matches!(
        parse_module(&bytes),
        Err(KedgeError::DecodeError("not enough bytes"))
    ));
}

#[test]
fn out_of_range_type_index_rejected() {
    let bytes = module_bytes(&[(3, vec![1, 5]), (10, vec![1, 1, 0x0B])]);
    assert!(matches!(
        parse_module(&bytes),
        Err(KedgeError::DecodeError("Function type index out of range"))
    ));
    let bytes = module_bytes(&[(1, vec![1, 0x60, 0, 0]), (3, vec![1, 1]), (10, vec![1, 1, 0x0B])]);
    assert!(matches!(
        parse_module(&bytes),
        Err(KedgeError::DecodeError("Function type index out of range"))
    ));
}

#[test]
fn error_messages() {
    assert_eq!(KedgeError::DecodeError("EOF reached").message(), "Decode error: EOF reached");
    assert_eq!(KedgeError::RuntimeError("division by zero").message(), "Runtime error: division by zero");
    assert_eq!(KedgeError::MemoryViolation.message(), "Memory access violation");
    assert_eq!(KedgeError::StackUnderflow.message(), "Stack underflow");
    assert_eq!(KedgeError::InvalidInstruction(255).message(), "Invalid instruction: 0xFF");
    assert_eq!(KedgeError::InvalidInstruction(0x0B).message(), "Invalid instruction: 0xB");
    assert_eq!(KedgeError::InvalidInstruction(0x6D).message(), "Invalid instruction: 0x6D");
    assert_eq!(KedgeError::HostcallError("x").message(), "Hostcall failed: x");
    assert_eq!(KedgeError::UnsupportedFeature("imports").message(), "Unsupported: imports");
    assert_eq!(KedgeError::TypeMismatch.message(), "Type mismatch");
}
