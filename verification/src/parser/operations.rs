use vstd::prelude::*;

verus! {

/// An operation with two operands, `a op b`.
#[derive(PartialEq, Eq, Structural, Debug, Hash, Clone, Copy)]
pub enum BinaryOp {
    /// +
    Add,
    /// -
    Subtract,
    /// *
    Multiply,
    /// /
    Divide,
}

impl View for BinaryOp {
    type V = BinaryOp;

    open spec fn view(&self) -> BinaryOp {
        *self
    }
}

impl BinaryOp {
    /// The binding strength of the operator: `*` and `/` bind at level 2,
    /// `+` and `-` at level 1. All four are left-associative.
    pub fn precedence(self) -> (r: u8)
        ensures
            r == self.spec_precedence(),
    {
        match self {
            BinaryOp::Add => 1,
            BinaryOp::Subtract => 1,
            BinaryOp::Multiply => 2,
            BinaryOp::Divide => 2,
        }
    }

    pub open spec fn spec_precedence(self) -> u8 {
        match self {
            BinaryOp::Add => 1,
            BinaryOp::Subtract => 1,
            BinaryOp::Multiply => 2,
            BinaryOp::Divide => 2,
        }
    }
}

} // verus!
