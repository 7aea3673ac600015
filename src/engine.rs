use vstd::prelude::*;

verus! {

use crate::consts::{
    OPCODE_END, OPCODE_I32_ADD, OPCODE_I32_CONST, OPCODE_I32_DIV_S, OPCODE_I32_MUL, OPCODE_I32_SUB,
    OPCODE_NOP, OPCODE_RETURN, OPCODE_UNREACHABLE,
};
use crate::error::KedgeError;
use crate::instructions::{execute_instruction, step_spec};
use crate::module::Module;
use crate::reader::{Reader, i32_leb, lemma_i32_leb_size, lemma_u32_leb_size, rest_of, u32_leb};
use crate::stack::ValueStack;
use crate::types::{Opcode, Value};

/// Skips `k` local declarations (a LEB128 run count and a type byte each)
/// from `pos`: the position after them.
pub open spec fn skip_locals(body: Seq<u8>, pos: nat, k: nat) -> Result<nat, KedgeError>
    decreases k,
{
    if k == 0 {
        Ok(pos)
    } else {
        match u32_leb(rest_of(body, pos)) {
            Err(e) => Err(e),
            Ok((_, n)) => if pos + n < body.len() {
                skip_locals(body, pos + n + 1, (k - 1) as nat)
            } else {
                Err(KedgeError::DecodeError("EOF reached"))
            },
        }
    }
}

/// Where the instructions of `body` start, after its local declarations.
pub open spec fn code_start(body: Seq<u8>) -> Result<nat, KedgeError> {
    match u32_leb(body) {
        Err(e) => Err(e),
        Ok((count, n)) => skip_locals(body, n, count as nat),
    }
}

/// The instruction of an opcode byte that carries no immediate and does not
/// end the body.
pub open spec fn plain_opcode(b: u8) -> Option<Opcode> {
    if b == OPCODE_I32_ADD {
        Some(Opcode::I32Add)
    } else if b == OPCODE_I32_SUB {
        Some(Opcode::I32Sub)
    } else if b == OPCODE_I32_MUL {
        Some(Opcode::I32Mul)
    } else if b == OPCODE_I32_DIV_S {
        Some(Opcode::I32DivS)
    } else if b == OPCODE_NOP {
        Some(Opcode::Nop)
    } else if b == OPCODE_UNREACHABLE {
        Some(Opcode::Unreachable)
    } else if b == OPCODE_RETURN {
        Some(Opcode::Return)
    } else {
        None
    }
}

/// Runs the instructions of `body` from `pos` on a stack with contents `s`,
/// until the body ends, an `end` opcode comes, or a step fails: the stack left
/// behind and whether the run succeeded.
pub open spec fn run_from(body: Seq<u8>, pos: nat, s: Seq<Value>) -> (
    Seq<Value>,
    Result<(), KedgeError>,
)
    decreases body.len() - pos,
{
    if pos >= body.len() {
        (s, Ok(()))
    } else {
        let b = body[pos as int];
        if b == OPCODE_END {
            (s, Ok(()))
        } else if b == OPCODE_I32_CONST {
            match i32_leb(rest_of(body, pos + 1)) {
                Err(e) => (s, Err(e)),
                Ok((v, n)) => {
                    proof {
                        lemma_i32_leb_size(rest_of(body, pos + 1), 0, 0);
                    }
                    let (s1, r) = step_spec(Opcode::I32Const(v), s);
                    if r is Err {
                        (s1, r)
                    } else {
                        run_from(body, pos + 1 + n, s1)
                    }
                },
            }
        } else {
            match plain_opcode(b) {
                None => (s, Err(KedgeError::InvalidInstruction(b))),
                Some(op) => {
                    let (s1, r) = step_spec(op, s);
                    if r is Err {
                        (s1, r)
                    } else {
                        run_from(body, pos + 1, s1)
                    }
                },
            }
        }
    }
}

/// Runs a function body on a stack with contents `s`: the stack left behind,
/// and the value on its top when the run succeeds.
pub open spec fn run_spec(body: Seq<u8>, s: Seq<Value>) -> (
    Seq<Value>,
    Result<Option<Value>, KedgeError>,
) {
    match code_start(body) {
        Err(e) => (s, Err(e)),
        Ok(p) => {
            let (s1, r) = run_from(body, p, s);
            match r {
                Err(e) => (s1, Err(e)),
                Ok(_) => (s1, Ok(if s1.len() > 0 { Some(s1.last()) } else { None })),
            }
        },
    }
}

/// Executes a module's first function on its own value stack.
pub struct Engine {
    pub stack: ValueStack,
}

impl Engine {
    /// An engine with an empty stack.
    pub fn new() -> (r: Self)
        ensures
            r.stack@ == Seq::<Value>::empty(),
    {
        Engine { stack: ValueStack::new() }
    }

    /// Runs function 0 of `module` and returns the value left on top of the
    /// stack, if any.
    pub fn run(&mut self, module: &Module) -> (r: Result<Option<Value>, KedgeError>)
        ensures
            module.functions@.len() == 0 ==> {
                &&& r == Err::<Option<Value>, KedgeError>(
                    KedgeError::RuntimeError("Missing function[0]"),
                )
                &&& final(self).stack@ == old(self).stack@
            },
            module.functions@.len() > 0 ==> (final(self).stack@, r) == run_spec(
                module.functions@[0].body@,
                old(self).stack@,
            ),
    {
        let func = match module.get_function(0) {
            Some(f) => f,
            None => return Err(KedgeError::RuntimeError("Missing function[0]")),
        };
        let ghost body = func.body@;
        let mut reader = Reader::new(func.body.as_slice());

        // Local declarations are read and skipped.
        proof {
            assert(reader.remaining() =~= body);
            lemma_u32_leb_size(body, 0, 0);
        }
        let local_count = reader.read_u32_leb128()? as usize;
        let mut k: usize = 0;
        while k < local_count
            invariant
                module.functions@.len() > 0,
                body == module.functions@[0].body@,
                self.stack@ == old(self).stack@,
                reader.bytes@ == body,
                reader.position <= body.len(),
                k <= local_count,
                code_start(body) == skip_locals(body, reader.position as nat, (local_count - k) as nat),
            decreases local_count - k,
        {
            proof {
                lemma_u32_leb_size(reader.remaining(), 0, 0);
            }
            let _n = reader.read_u32_leb128()?;
            let _valtype = reader.read_u8()?;
            k = k + 1;
        }

        let ghost p0 = reader.position as nat;
        let ghost s0 = self.stack@;
        loop
            invariant_except_break
                run_from(body, p0, s0) == run_from(body, reader.position as nat, self.stack@),
            invariant
                module.functions@.len() > 0,
                body == module.functions@[0].body@,
                s0 == old(self).stack@,
                reader.bytes@ == body,
                reader.position <= body.len(),
                code_start(body) == Ok::<nat, KedgeError>(p0),
            ensures
                run_from(body, p0, s0) == (self.stack@, Ok::<(), KedgeError>(())),
            decreases body.len() - reader.position,
        {
            if reader.is_done() {
                break;
            }
            let ghost at = reader.position as nat;
            let byte = reader.read_u8()?;
            let opcode = match byte {
                OPCODE_I32_CONST => {
                    proof {
                        lemma_i32_leb_size(reader.remaining(), 0, 0);
                    }
                    let val = reader.read_i32_leb128()?;
                    Opcode::I32Const(val)
                },
                OPCODE_I32_ADD => Opcode::I32Add,
                OPCODE_I32_SUB => Opcode::I32Sub,
                OPCODE_I32_MUL => Opcode::I32Mul,
                OPCODE_I32_DIV_S => Opcode::I32DivS,
                OPCODE_NOP => Opcode::Nop,
                OPCODE_UNREACHABLE => Opcode::Unreachable,
                OPCODE_RETURN => Opcode::Return,
                OPCODE_END => break,
                other => return Err(KedgeError::InvalidInstruction(other)),
            };
            execute_instruction(opcode, &mut self.stack)?;
        }
        Ok(self.stack.peek())
    }

    /// Empties the stack.
    pub fn reset(&mut self)
        ensures
            final(self).stack@ == Seq::<Value>::empty(),
    {
        self.stack.reset();
    }
}

} // verus!
