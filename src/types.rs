use vstd::prelude::*;

verus! {

use crate::error::KedgeError;

/// The scalar value types of the subset.
#[derive(Debug, Clone, Copy, PartialEq, Eq, Structural)]
pub enum ValType {
    I32,
    I64,
}

/// A runtime value, tagged with its type.
#[derive(Debug, Clone, Copy, PartialEq, Eq, Structural)]
pub enum Value {
    I32(i32),
    I64(i64),
}

impl Value {
    /// The payload of an `I32` value; a type mismatch for any other value.
    pub fn as_i32(&self) -> (r: Result<i32, KedgeError>)
        ensures
            r == (match *self {
                Value::I32(v) => Ok::<i32, KedgeError>(v),
                _ => Err(KedgeError::TypeMismatch),
            }),
    {
        match self {
            Value::I32(v) => Ok(*v),
            _ => Err(KedgeError::TypeMismatch),
        }
    }

    /// The payload of an `I64` value; a type mismatch for any other value.
    pub fn as_i64(&self) -> (r: Result<i64, KedgeError>)
        ensures
            r == (match *self {
                Value::I64(v) => Ok::<i64, KedgeError>(v),
                _ => Err(KedgeError::TypeMismatch),
            }),
    {
        match self {
            Value::I64(v) => Ok(*v),
            _ => Err(KedgeError::TypeMismatch),
        }
    }
}

/// A function signature: parameter types and result types, in order.
#[derive(Debug, Clone, PartialEq)]
pub struct FuncType {
    pub params: Vec<ValType>,
    pub results: Vec<ValType>,
}

impl FuncType {
    pub fn new(params: Vec<ValType>, results: Vec<ValType>) -> (r: Self)
        ensures
            r.params@ == params@,
            r.results@ == results@,
    {
        FuncType { params, results }
    }
}

/// A typed local variable slot.
#[derive(Debug, Clone)]
pub struct Local {
    pub val_type: ValType,
    pub value: Value,
}

/// One decoded instruction, with its immediate operand where it has one.
#[derive(Debug, Clone, Copy, PartialEq, Eq, Structural)]
pub enum Opcode {
    Nop,
    Unreachable,
    I32Const(i32),
    I32Add,
    I32Sub,
    I32Mul,
    I32DivS,
    GetLocal(u32),
    SetLocal(u32),
    Call(u32),
    End,
    Return,
}

} // verus!
