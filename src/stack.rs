use vstd::prelude::*;

verus! {

use crate::error::KedgeError;
use crate::types::Value;

/// What a pop does to a stack with contents `s` (top last): the remaining
/// contents and the value taken, or an underflow on an empty stack.
pub open spec fn pop_spec(s: Seq<Value>) -> (Seq<Value>, Result<Value, KedgeError>) {
    if s.len() == 0 {
        (s, Err(KedgeError::StackUnderflow))
    } else {
        (s.drop_last(), Ok(s.last()))
    }
}

/// LIFO operand stack of runtime values.
pub struct ValueStack {
    stack: Vec<Value>,
}

impl View for ValueStack {
    type V = Seq<Value>;

    /// The values from bottom to top.
    closed spec fn view(&self) -> Seq<Value> {
        self.stack@
    }
}

impl ValueStack {
    pub fn new() -> (r: Self)
        ensures
            r@ == Seq::<Value>::empty(),
    {
        ValueStack { stack: Vec::new() }
    }

    pub fn push(&mut self, val: Value)
        ensures
            final(self)@ == old(self)@.push(val),
    {
        self.stack.push(val);
    }

    /// Takes the top value off; fails on an empty stack.
    pub fn pop(&mut self) -> (r: Result<Value, KedgeError>)
        ensures
            (final(self)@, r) == pop_spec(old(self)@),
    {
        match self.stack.pop() {
            Some(v) => Ok(v),
            None => Err(KedgeError::StackUnderflow),
        }
    }

    /// The top value, if any, without removing it.
    pub fn peek(&self) -> (r: Option<Value>)
        ensures
            r == (if self@.len() > 0 {
                Some(self@.last())
            } else {
                None
            }),
    {
        let n = self.stack.len();
        if n > 0 {
            Some(self.stack[n - 1])
        } else {
            None
        }
    }

    pub fn len(&self) -> (r: usize)
        ensures
            r == self@.len(),
    {
        self.stack.len()
    }

    pub fn is_empty(&self) -> (r: bool)
        ensures
            r == (self@.len() == 0),
    {
        self.stack.len() == 0
    }

    /// Removes every value.
    pub fn reset(&mut self)
        ensures
            final(self)@ == Seq::<Value>::empty(),
    {
        self.stack.clear();
    }
}

/// A pop right after a push gives back the pushed value and the stack as it
/// was before the push; a pop on an empty stack (as made by `new` or left by
/// `reset`) underflows and leaves it empty.
pub proof fn lemma_stack_laws(s: Seq<Value>, v: Value)
    ensures
        pop_spec(s.push(v)) == (s, Ok::<Value, KedgeError>(v)),
        pop_spec(Seq::<Value>::empty()) == (
            Seq::<Value>::empty(),
            Err::<Value, KedgeError>(KedgeError::StackUnderflow),
        ),
{
    assert(s.push(v).drop_last() =~= s);
}

} // verus!
