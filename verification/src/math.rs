//! The arithmetic exercise itself: an operation, two operands, and the
//! exact value the exercise asks for.

use vstd::prelude::*;

verus! {

/// The four supported arithmetic operators of an exercise.
#[derive(Clone, Copy, Debug, PartialEq, Eq, Structural)]
pub enum Operation {
    PLUS,
    MINUS,
    MULTIPLY,
    DIVIDE,
}

/// The stable integer encoding of an `Operation` in the persisted format.
/// These codes are part of the stored data and must never be renumbered.
pub open spec fn op_code(op: Operation) -> i32 {
    match op {
        Operation::PLUS => 0,
        Operation::MINUS => 1,
        Operation::MULTIPLY => 2,
        Operation::DIVIDE => 3,
    }
}

/// The partial inverse of `op_code`: which operation a stored integer
/// denotes, if any.
pub open spec fn op_of_code(val: i32) -> Option<Operation> {
    if val == 0 {
        Some(Operation::PLUS)
    } else if val == 1 {
        Some(Operation::MINUS)
    } else if val == 2 {
        Some(Operation::MULTIPLY)
    } else if val == 3 {
        Some(Operation::DIVIDE)
    } else {
        None
    }
}

impl Operation {
    /// The integer under which this operation is stored.
    pub fn to_int(&self) -> (r: i32)
        ensures
            r == op_code(*self),
    {
        match self {
            Operation::PLUS => 0,
            Operation::MINUS => 1,
            Operation::MULTIPLY => 2,
            Operation::DIVIDE => 3,
        }
    }

    /// The operation a stored integer denotes; `None` for an integer
    /// outside the four codes.
    pub fn from_int(val: i32) -> (r: Option<Operation>)
        ensures
            r == op_of_code(val),
    {
        match val {
            0 => Some(Operation::PLUS),
            1 => Some(Operation::MINUS),
            2 => Some(Operation::MULTIPLY),
            3 => Some(Operation::DIVIDE),
            _ => None,
        }
    }
}

/// Encoding an operation and decoding the code yields the operation again.
pub proof fn lemma_operation_round_trip(op: Operation)
    ensures
        op_of_code(op_code(op)) == Some(op),
{
}

/// A stored integer decodes to some operation exactly when it is one of
/// the four codes 0 through 3.
pub proof fn lemma_operation_code_range(val: i32)
    ensures
        (op_of_code(val) is Some) <==> (0 <= val <= 3),
{
}

/// One exercise: two unsigned operands joined by an operation.
#[derive(Clone, Copy, Debug, PartialEq, Eq, Structural)]
pub struct Task {
    pub num_left: u64,
    pub num_right: u64,
    pub operation: Operation,
}

/// The exact integer value of the exercise, where it has one: a sum or a
/// product that fits in `u64`, or a difference that does not underflow.
/// Division and out-of-range results have no integer value; comparing
/// them against a submitted floating-point answer happens outside the
/// verified core.
pub open spec fn spec_exact_result(t: Task) -> Option<u64> {
    match t.operation {
        Operation::PLUS => if t.num_left + t.num_right <= u64::MAX {
            Some((t.num_left + t.num_right) as u64)
        } else {
            None
        },
        Operation::MINUS => if t.num_right <= t.num_left {
            Some((t.num_left - t.num_right) as u64)
        } else {
            None
        },
        Operation::MULTIPLY => if t.num_left * t.num_right <= u64::MAX {
            Some((t.num_left * t.num_right) as u64)
        } else {
            None
        },
        Operation::DIVIDE => None,
    }
}

impl Task {
    /// Builds the exercise from its operands and operation.
    pub fn new(a: u64, b: u64, op: Operation) -> (t: Task)
        ensures
            t == (Task { num_left: a, num_right: b, operation: op }),
    {
        Task { num_left: a, num_right: b, operation: op }
    }

    /// The exact integer value of this exercise, where it has one.
    /// An answer check compares this value (or, for division, the
    /// floating-point quotient, outside the verified core) against the
    /// submitted answer.
    pub fn exact_result(&self) -> (r: Option<u64>)
        ensures
            r == spec_exact_result(*self),
    {
        match self.operation {
            Operation::PLUS => self.num_left.checked_add(self.num_right),
            Operation::MINUS => self.num_left.checked_sub(self.num_right),
            Operation::MULTIPLY => self.num_left.checked_mul(self.num_right),
            Operation::DIVIDE => None,
        }
    }
}

} // verus!
