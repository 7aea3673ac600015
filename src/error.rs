use vstd::prelude::*;

verus! {

use vstd::string::StringExecFns;

/// Every way a decode or a run can fail.
#[derive(Debug, Clone, Copy, PartialEq, Eq)]
pub enum KedgeError {
    DecodeError(&'static str),
    RuntimeError(&'static str),
    MemoryViolation,
    StackUnderflow,
    InvalidInstruction(u8),
    HostcallError(&'static str),
    UnsupportedFeature(&'static str),
    /// An operator found an operand of another value type than it expects.
    TypeMismatch,
}

/// The upper-case hexadecimal digit of `d` (below 16).
pub open spec fn hex_digit_spec(d: u8) -> &'static str {
    if d == 0 {
        "0"
    } else if d == 1 {
        "1"
    } else if d == 2 {
        "2"
    } else if d == 3 {
        "3"
    } else if d == 4 {
        "4"
    } else if d == 5 {
        "5"
    } else if d == 6 {
        "6"
    } else if d == 7 {
        "7"
    } else if d == 8 {
        "8"
    } else if d == 9 {
        "9"
    } else if d == 10 {
        "A"
    } else if d == 11 {
        "B"
    } else if d == 12 {
        "C"
    } else if d == 13 {
        "D"
    } else if d == 14 {
        "E"
    } else {
        "F"
    }
}

/// `b` in upper-case hexadecimal, without leading zeros.
pub open spec fn hex_spec(b: u8) -> Seq<char> {
    if b < 16 {
        hex_digit_spec(b)@
    } else {
        hex_digit_spec(b / 16)@ + hex_digit_spec(b % 16)@
    }
}

/// The text that describes an error.
pub open spec fn message_spec(e: KedgeError) -> Seq<char> {
    match e {
        KedgeError::DecodeError(m) => "Decode error: "@ + m@,
        KedgeError::RuntimeError(m) => "Runtime error: "@ + m@,
        KedgeError::MemoryViolation => "Memory access violation"@,
        KedgeError::StackUnderflow => "Stack underflow"@,
        KedgeError::InvalidInstruction(op) => "Invalid instruction: 0x"@ + hex_spec(op),
        KedgeError::HostcallError(m) => "Hostcall failed: "@ + m@,
        KedgeError::UnsupportedFeature(m) => "Unsupported: "@ + m@,
        KedgeError::TypeMismatch => "Type mismatch"@,
    }
}

fn hex_digit(d: u8) -> (r: &'static str)
    ensures
        r == hex_digit_spec(d),
{
    if d == 0 {
        "0"
    } else if d == 1 {
        "1"
    } else if d == 2 {
        "2"
    } else if d == 3 {
        "3"
    } else if d == 4 {
        "4"
    } else if d == 5 {
        "5"
    } else if d == 6 {
        "6"
    } else if d == 7 {
        "7"
    } else if d == 8 {
        "8"
    } else if d == 9 {
        "9"
    } else if d == 10 {
        "A"
    } else if d == 11 {
        "B"
    } else if d == 12 {
        "C"
    } else if d == 13 {
        "D"
    } else if d == 14 {
        "E"
    } else {
        "F"
    }
}

impl KedgeError {
    /// A human-readable description of the error.
    pub fn message(&self) -> (r: String)
        ensures
            r@ == message_spec(*self),
    {
        match self {
            KedgeError::DecodeError(m) => {
                let mut s = String::from_str("Decode error: ");
                s.append(m);
                s
            },
            KedgeError::RuntimeError(m) => {
                let mut s = String::from_str("Runtime error: ");
                s.append(m);
                s
            },
            KedgeError::MemoryViolation => String::from_str("Memory access violation"),
            KedgeError::StackUnderflow => String::from_str("Stack underflow"),
            KedgeError::InvalidInstruction(op) => {
                let mut s = String::from_str("Invalid instruction: 0x");
                if *op >= 16 {
                    s.append(hex_digit(*op / 16));
                }
                s.append(hex_digit(*op % 16));
                s
            },
            KedgeError::HostcallError(m) => {
                let mut s = String::from_str("Hostcall failed: ");
                s.append(m);
                s
            },
            KedgeError::UnsupportedFeature(m) => {
                let mut s = String::from_str("Unsupported: ");
                s.append(m);
                s
            },
            KedgeError::TypeMismatch => String::from_str("Type mismatch"),
        }
    }
}

} // verus!
