use kedge_wx::engine::Engine;
use kedge_wx::error::KedgeError;
use kedge_wx::instructions::{execute_instruction, opcode_to_byte};
use kedge_wx::memory::LinearMemory;
use kedge_wx::module::Module;
use kedge_wx::module_decoder::parse_module;
use kedge_wx::stack::ValueStack;
use kedge_wx::types::{FuncType, Opcode, ValType, Value};

fn single_function_module(body: &[u8]) -> Vec<u8> {
    let mut out = vec![0x00, 0x61, 0x73, 0x6D, 0x01, 0x00, 0x00, 0x00];
    out.extend_from_slice(&[1, 4, 1, 0x60, 0, 0]);
    out.extend_from_slice(&[3, 2, 1, 0]);
    out.push(10);
    out.push((body.len() + 2) as u8);
    out.push(1);
    out.push(body.len() as u8);
    out.extend_from_slice(body);
    out
}

fn run_body(body: &[u8]) -> Result<Option<Value>, KedgeError> {
    let module = parse_module(&single_function_module(body)).unwrap();
    Engine::new().run(&module)
}

#[test]
fn scenario_add_two_constants() {
    assert_eq!(run_body(&[0, 0x41, 2, 0x41, 3, 0x6A, 0x0B]), Ok(Some(Value::I32(5))));
}

#[test]
fn scenario_division_by_zero() {
    let module = parse_module(&single_function_module(&[0, 0x41, 7, 0x41, 0, 0x6D, 0x0B])).unwrap();
    let mut engine = Engine::new();
    assert_eq!(engine.run(&module), Err(KedgeError::RuntimeError("division by zero")));
    assert!(engine.stack.is_empty());
    engine.stack.push(Value::I32(1));
    engine.reset();
    assert!(engine.stack.is_empty());
}

#[test]
fn scenario_invalid_opcode() {
    assert_eq!(run_body(&[0, 0xFF, 0x0B]), Err(KedgeError::InvalidInstruction(255)));
}

#[test]
fn run_sub_mul_div_operand_order() {
    assert_eq!(run_body(&[0, 0x41, 10, 0x41, 3, 0x6B, 0x0B]), Ok(Some(Value::I32(7))));
    assert_eq!(run_body(&[0, 0x41, 6, 0x41, 7, 0x6C, 0x0B]), Ok(Some(Value::I32(42))));
    assert_eq!(run_body(&[0, 0x41, 0x79, 0x41, 2, 0x6D, 0x0B]), Ok(Some(Value::I32(-3))));
}

#[test]
fn run_skips_local_declarations() {
    assert_eq!(run_body(&[2, 1, 0x7F, 3, 0x7E, 0x41, 9, 0x0B]), Ok(Some(Value::I32(9))));
}

#[test]
fn run_stops_at_end_opcode() {
    assert_eq!(run_body(&[0, 0x41, 1, 0x0B, 0xFF]), Ok(Some(Value::I32(1))));
}

#[test]
fn run_without_end_stops_at_body_end() {
    assert_eq!(run_body(&[0, 0x01, 0x41, 4]), Ok(Some(Value::I32(4))));
}

#[test]
fn run_empty_stack_result() {
    assert_eq!(run_body(&[0, 0x01, 0x0F, 0x0B]), Ok(None));
}

#[test]
fn run_unreachable_fails() {
    assert_eq!(run_body(&[0, 0x00, 0x0B]), Err(KedgeError::RuntimeError("unreachable instruction")));
}

#[test]
fn run_underflow_fails() {
    assert_eq!(run_body(&[0, 0x41, 1, 0x6A, 0x0B]), Err(KedgeError::StackUnderflow));
}

#[test]
fn run_truncated_immediate_fails() {
    assert_eq!(run_body(&[0, 0x41, 0x80]), Err(KedgeError::DecodeError("EOF reached")));
}

#[test]
fn run_missing_function() {
    let module = Module::new();
    assert_eq!(Engine::new().run(&module), Err(KedgeError::RuntimeError("Missing function[0]")));
}

#[test]
fn module_add_and_get_function() {
    let mut module = Module::new();
    module.types.push(FuncType::new(vec![ValType::I32], vec![]));
    module.add_function(0, vec![0, 0x41, 8, 0x0B]);
    assert_eq!(module.get_function(0).unwrap().type_index, 0);
    assert!(module.get_function(0).unwrap().locals.is_empty());
    assert_eq!(module.get_func_type(0).unwrap().params, vec![ValType::I32]);
    assert_eq!(Engine::new().run(&module), Ok(Some(Value::I32(8))));
}

#[test]
fn stack_push_pop_laws() {
    let mut s = ValueStack::new();
    assert_eq!(s.pop(), Err(KedgeError::StackUnderflow));
    s.push(Value::I32(1));
    s.push(Value::I64(-2));
    assert_eq!(s.len(), 2);
    assert_eq!(s.peek(), Some(Value::I64(-2)));
    assert_eq!(s.pop(), Ok(Value::I64(-2)));
    assert_eq!(s.pop(), Ok(Value::I32(1)));
    assert!(s.is_empty());
    s.push(Value::I32(3));
    s.reset();
    assert_eq!(s.pop(), Err(KedgeError::StackUnderflow));
    assert_eq!(s.peek(), None);
}

fn exec_on(values: &[Value], op: Opcode) -> (Result<(), KedgeError>, Option<Value>, usize) {
    let mut s = ValueStack::new();
    for v in values {
        s.push(*v);
    }
    let r = execute_instruction(op, &mut s);
    (r, s.peek(), s.len())
}

#[test]
fn dispatcher_arithmetic() {
    assert_eq!(exec_on(&[Value::I32(i32::MAX), Value::I32(1)], Opcode::I32Add), (Ok(()), Some(Value::I32(i32::MIN)), 1));
    assert_eq!(exec_on(&[Value::I32(3), Value::I32(10)], Opcode::I32Sub), (Ok(()), Some(Value::I32(-7)), 1));
    assert_eq!(exec_on(&[Value::I32(i32::MIN), Value::I32(-1)], Opcode::I32Mul), (Ok(()), Some(Value::I32(i32::MIN)), 1));
    assert_eq!(exec_on(&[Value::I32(7), Value::I32(-2)], Opcode::I32DivS), (Ok(()), Some(Value::I32(-3)), 1));
    assert_eq!(exec_on(&[], Opcode::I32Const(-9)), (Ok(()), Some(Value::I32(-9)), 1));
    assert_eq!(exec_on(&[Value::I32(4)], Opcode::Nop), (Ok(()), Some(Value::I32(4)), 1));
    assert_eq!(exec_on(&[Value::I32(4)], Opcode::End), (Ok(()), Some(Value::I32(4)), 1));
}

#[test]
fn dispatcher_errors() {
    assert_eq!(exec_on(&[Value::I32(9), Value::I32(7), Value::I32(0)], Opcode::I32DivS), (Err(KedgeError::RuntimeError("division by zero")), Some(Value::I32(9)), 1));
    assert_eq!(exec_on(&[Value::I32(0)], Opcode::I32DivS).0, Err(KedgeError::StackUnderflow));
    assert_eq!(exec_on(&[Value::I64(0)], Opcode::I32Add), (Err(KedgeError::StackUnderflow), None, 0));
    assert_eq!(exec_on(&[Value::I64(0)], Opcode::I32DivS).0, Err(KedgeError::StackUnderflow));
    assert_eq!(exec_on(&[], Opcode::I32Mul).0, Err(KedgeError::StackUnderflow));
    assert_eq!(exec_on(&[Value::I32(5), Value::I64(1), Value::I32(0)], Opcode::I32DivS), (Err(KedgeError::TypeMismatch), Some(Value::I32(5)), 1));
    assert_eq!(exec_on(&[Value::I32(i32::MIN), Value::I32(-1)], Opcode::I32DivS).0, Err(KedgeError::RuntimeError("integer overflow")));
    assert_eq!(exec_on(&[Value::I32(1), Value::I64(2)], Opcode::I32Add).0, Err(KedgeError::TypeMismatch));
    assert_eq!(exec_on(&[Value::I32(1)], Opcode::I32Sub).0, Err(KedgeError::StackUnderflow));
    assert_eq!(exec_on(&[], Opcode::Unreachable).0, Err(KedgeError::RuntimeError("unreachable instruction")));
    assert_eq!(exec_on(&[], Opcode::GetLocal(0)).0, Err(KedgeError::InvalidInstruction(0x20)));
    assert_eq!(exec_on(&[], Opcode::Call(1)).0, Err(KedgeError::InvalidInstruction(0x10)));
}

#[test]
fn opcode_bytes() {
    assert_eq!(opcode_to_byte(&Opcode::I32Const(5)), 0x41);
    assert_eq!(opcode_to_byte(&Opcode::I32DivS), 0x6D);
    assert_eq!(opcode_to_byte(&Opcode::SetLocal(1)), 0x21);
    assert_eq!(opcode_to_byte(&Opcode::Return), 0x0F);
}

#[test]
fn value_accessors() {
    assert_eq!(Value::I32(-4).as_i32(), Ok(-4));
    assert_eq!(Value::I64(1 << 40).as_i64(), Ok(1 << 40));
    assert_eq!(Value::I64(3).as_i32(), Err(KedgeError::TypeMismatch));
    assert_eq!(Value::I32(3).as_i64(), Err(KedgeError::TypeMismatch));
}

#[test]
fn memory_write_then_read_i32() {
    let mut m = LinearMemory::new();
    assert_eq!(m.size(), 65536);
    for (o, v) in [(0usize, 0x1234_5678i32), (13, -2), (65532, i32::MIN)] {
        assert_eq!(m.write_i32(o, v), Ok(()));
        assert_eq!(m.read_i32(o), Ok(v));
    }
    assert_eq!(m.read(0, 4), Ok(&[0x78u8, 0x56, 0x34, 0x12][..]));
}

#[test]
fn memory_bounds() {
    let mut m = LinearMemory::new();
    let size = m.size();
    assert_eq!(m.read_i32(size - 3), Err(KedgeError::MemoryViolation));
    assert_eq!(m.write_i32(size - 3, 1), Err(KedgeError::MemoryViolation));
    assert_eq!(m.read(size - 8 + 1, 8), Err(KedgeError::MemoryViolation));
    assert_eq!(m.write(size - 2 + 1, &[1, 2]), Err(KedgeError::MemoryViolation));
    assert_eq!(m.read(usize::MAX, 2), Err(KedgeError::MemoryViolation));
    assert_eq!(m.write(usize::MAX, &[1]), Err(KedgeError::MemoryViolation));
    assert_eq!(m.read(size, 0), Ok(&[][..]));
    assert_eq!(m.write(size - 2, &[9, 8]), Ok(()));
    assert_eq!(m.read(size - 2, 2), Ok(&[9u8, 8][..]));
}

#[test]
fn memory_grow_adds_zero_pages() {
    let mut m = LinearMemory::new();
    m.grow(2);
    assert_eq!(m.size(), 3 * 65536);
    assert_eq!(m.read_i32(3 * 65536 - 4), Ok(0));
    m.grow(0);
    assert_eq!(m.size(), 3 * 65536);
}
