use vstd::prelude::*;

verus! {

use crate::types::{FuncType, Value};

/// A function of a module: its type's index and its raw body.
pub struct Function {
    pub type_index: usize,
    pub locals: Vec<Value>,
    pub body: Vec<u8>,
}

/// A decoded module: the type table and the functions, each in declaration
/// order.
pub struct Module {
    pub types: Vec<FuncType>,
    pub functions: Vec<Function>,
    pub start_function: Option<usize>,
}

impl Module {
    /// A module with no types and no functions.
    pub fn new() -> (r: Self)
        ensures
            r.types@.len() == 0,
            r.functions@.len() == 0,
            r.start_function is None,
    {
        Module { types: Vec::new(), functions: Vec::new(), start_function: None }
    }

    /// Appends a function with no locals.
    pub fn add_function(&mut self, type_index: usize, body: Vec<u8>)
        ensures
            final(self).types@ == old(self).types@,
            final(self).start_function == old(self).start_function,
            final(self).functions@.len() == old(self).functions@.len() + 1,
            forall|i: int|
                0 <= i < old(self).functions@.len() ==> final(self).functions@[i] == old(
                    self,
                ).functions@[i],
            final(self).functions@.last().type_index == type_index,
            final(self).functions@.last().body@ == body@,
            final(self).functions@.last().locals@.len() == 0,
    {
        self.functions.push(Function { type_index, locals: Vec::new(), body });
    }

    pub fn get_function(&self, index: usize) -> (r: Option<&Function>)
        ensures
            index < self.functions@.len() ==> r == Some(&self.functions@[index as int]),
            index >= self.functions@.len() ==> r is None,
    {
        if index < self.functions.len() {
            Some(&self.functions[index])
        } else {
            None
        }
    }

    pub fn get_func_type(&self, index: usize) -> (r: Option<&FuncType>)
        ensures
            index < self.types@.len() ==> r == Some(&self.types@[index as int]),
            index >= self.types@.len() ==> r is None,
    {
        if index < self.types.len() {
            Some(&self.types[index])
        } else {
            None
        }
    }
}

} // verus!
