pub mod ast;

use vstd::prelude::*;
use ast::BinOp;

verus! {

/// The left and right binding powers of a binary operator in the expression
/// parser; the right one is one more, so operators of a level associate left.
pub open spec fn spec_infix_binding_power(op: BinOp) -> (u8, u8) {
    match op {
        BinOp::Or => (1, 2),
        BinOp::And => (3, 4),
        BinOp::BitOr => (5, 6),
        BinOp::BitXor => (7, 8),
        BinOp::BitAnd => (9, 10),
        BinOp::Eq | BinOp::Neq => (11, 12),
        BinOp::Lt | BinOp::Gt | BinOp::LtEq | BinOp::GtEq => (13, 14),
        BinOp::Shl | BinOp::Shr => (15, 16),
        BinOp::Add | BinOp::Sub => (17, 18),
        BinOp::Mul | BinOp::Div | BinOp::Mod => (19, 20),
    }
}

/// The binding powers of a binary operator.
pub fn infix_binding_power(op: BinOp) -> (bp: (u8, u8))
    ensures
        bp == spec_infix_binding_power(op),
{
    match op {
        BinOp::Or => (1, 2),
        BinOp::And => (3, 4),
        BinOp::BitOr => (5, 6),
        BinOp::BitXor => (7, 8),
        BinOp::BitAnd => (9, 10),
        BinOp::Eq | BinOp::Neq => (11, 12),
        BinOp::Lt | BinOp::Gt | BinOp::LtEq | BinOp::GtEq => (13, 14),
        BinOp::Shl | BinOp::Shr => (15, 16),
        BinOp::Add | BinOp::Sub => (17, 18),
        BinOp::Mul | BinOp::Div | BinOp::Mod => (19, 20),
    }
}

/// Every binary operator associates to the left: its right binding power is
/// just above its left one, and below the left power of every tighter level.
pub proof fn lemma_binding_power_left_assoc(op: BinOp, other: BinOp)
    ensures
        spec_infix_binding_power(op).1 == spec_infix_binding_power(op).0 + 1,
        spec_infix_binding_power(op).0 < spec_infix_binding_power(other).0
            ==> spec_infix_binding_power(op).1 <= spec_infix_binding_power(other).0,
{
}

} // verus!
