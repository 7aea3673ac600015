use vstd::prelude::*;

verus! {

use crate::error::KedgeError;
use crate::stack::{ValueStack, pop_spec};
use crate::types::{Opcode, Value};

/// Signed 32-bit division, truncating toward zero.
pub open spec fn div_trunc(a: i32, b: i32) -> i32 {
    if a >= 0 {
        (a as int / b as int) as i32
    } else {
        (-((-a) as int / (b as int))) as i32
    }
}

/// The encoding byte of each opcode.
pub open spec fn opcode_byte(op: Opcode) -> u8 {
    match op {
        Opcode::Nop => 0x01,
        Opcode::Unreachable => 0x00,
        Opcode::I32Const(_) => 0x41,
        Opcode::I32Add => 0x6A,
        Opcode::I32Sub => 0x6B,
        Opcode::I32Mul => 0x6C,
        Opcode::I32DivS => 0x6D,
        Opcode::GetLocal(_) => 0x20,
        Opcode::SetLocal(_) => 0x21,
        Opcode::Call(_) => 0x10,
        Opcode::End => 0x0B,
        Opcode::Return => 0x0F,
    }
}

/// The `i32` payload of a value; a type mismatch for any other value.
pub open spec fn i32_of(v: Value) -> Result<i32, KedgeError> {
    match v {
        Value::I32(x) => Ok(x),
        _ => Err(KedgeError::TypeMismatch),
    }
}

/// The result of a binary `i32` operator on `a` (left) and `b` (right).
pub open spec fn i32_binary(op: Opcode, a: i32, b: i32) -> i32 {
    match op {
        Opcode::I32Add => a.wrapping_add(b),
        Opcode::I32Sub => a.wrapping_sub(b),
        Opcode::I32Mul => a.wrapping_mul(b),
        _ => div_trunc(a, b),
    }
}

/// What executing `op` on a stack with contents `s` leaves on the stack, and
/// whether it succeeds. A binary operator takes its right operand from the
/// top and its left operand from below it. Both are taken off first (an
/// underflow if either is missing); then both must be `i32`s, and only then
/// does a division check its divisor.
pub open spec fn step_spec(op: Opcode, s: Seq<Value>) -> (Seq<Value>, Result<(), KedgeError>) {
    match op {
        Opcode::Nop | Opcode::End | Opcode::Return => (s, Ok(())),
        Opcode::I32Const(v) => (s.push(Value::I32(v)), Ok(())),
        Opcode::Unreachable => (s, Err(KedgeError::RuntimeError("unreachable instruction"))),
        Opcode::I32Add | Opcode::I32Sub | Opcode::I32Mul | Opcode::I32DivS => {
            let (s1, pb) = pop_spec(s);
            let (s2, pa) = pop_spec(s1);
            if pb is Err || pa is Err {
                (s2, Err(KedgeError::StackUnderflow))
            } else {
                match (i32_of(pb->Ok_0), i32_of(pa->Ok_0)) {
                    (Ok(b), Ok(a)) => if op is I32DivS && b == 0 {
                        (s2, Err(KedgeError::RuntimeError("division by zero")))
                    } else if op is I32DivS && a == i32::MIN && b == -1 {
                        (s2, Err(KedgeError::RuntimeError("integer overflow")))
                    } else {
                        (s2.push(Value::I32(i32_binary(op, a, b))), Ok(()))
                    },
                    _ => (s2, Err(KedgeError::TypeMismatch)),
                }
            }
        },
        Opcode::GetLocal(_) | Opcode::SetLocal(_) | Opcode::Call(_) => (
            s,
            Err(KedgeError::InvalidInstruction(opcode_byte(op))),
        ),
    }
}

/// A binary operator on a stack of fewer than two values underflows,
/// whatever those values are, and leaves the stack empty.
pub proof fn lemma_binary_underflow(op: Opcode, s: Seq<Value>)
    requires
        op is I32Add || op is I32Sub || op is I32Mul || op is I32DivS,
        s.len() < 2,
    ensures
        step_spec(op, s) == (Seq::<Value>::empty(), Err::<(), KedgeError>(KedgeError::StackUnderflow)),
{
    if s.len() == 1 {
        assert(s.drop_last() =~= Seq::<Value>::empty());
    } else {
        assert(s =~= Seq::<Value>::empty());
    }
}

/// Executes one instruction on `stack`.
pub fn execute_instruction(op: Opcode, stack: &mut ValueStack) -> (r: Result<(), KedgeError>)
    ensures
        (final(stack)@, r) == step_spec(op, old(stack)@),
{
    match op {
        Opcode::Nop => Ok(()),
        Opcode::I32Const(val) => {
            stack.push(Value::I32(val));
            Ok(())
        },
        Opcode::I32Add | Opcode::I32Sub | Opcode::I32Mul | Opcode::I32DivS => {
            let vb = stack.pop()?;
            let va = stack.pop()?;
            let b = vb.as_i32()?;
            let a = va.as_i32()?;
            let v = match op {
                Opcode::I32Add => a.wrapping_add(b),
                Opcode::I32Sub => a.wrapping_sub(b),
                Opcode::I32Mul => a.wrapping_mul(b),
                _ => {
                    if b == 0 {
                        return Err(KedgeError::RuntimeError("division by zero"));
                    }
                    if a == i32::MIN && b == -1 {
                        return Err(KedgeError::RuntimeError("integer overflow"));
                    }
                    a / b
                },
            };
            stack.push(Value::I32(v));
            Ok(())
        },
        Opcode::Unreachable => Err(KedgeError::RuntimeError("unreachable instruction")),
        Opcode::End | Opcode::Return => Ok(()),
        _ => Err(KedgeError::InvalidInstruction(opcode_to_byte(&op))),
    }
}

/// The encoding byte of `op`.
pub fn opcode_to_byte(op: &Opcode) -> (r: u8)
    ensures
        r == opcode_byte(*op),
{
    match op {
        Opcode::Nop => 0x01,
        Opcode::Unreachable => 0x00,
        Opcode::I32Const(_) => 0x41,
        Opcode::I32Add => 0x6A,
        Opcode::I32Sub => 0x6B,
        Opcode::I32Mul => 0x6C,
        Opcode::I32DivS => 0x6D,
        Opcode::GetLocal(_) => 0x20,
        Opcode::SetLocal(_) => 0x21,
        Opcode::Call(_) => 0x10,
        Opcode::End => 0x0B,
        Opcode::Return => 0x0F,
    }
}

} // verus!
