//! Primitives that compute on constants.

use crate::core_lang::model;
use crate::core_lang::{Const, Prim, UIntStyle};
use vstd::prelude::*;

verus! {

/// What a primitive of one argument computes on a constant, if anything.
pub fn unary_step(prim: Prim, x: Const) -> (folded: Option<Const>)
    ensures
        folded == model::fold_unary(prim, x),
{
    match prim {
        Prim::BoolNot => match x {
            Const::Bool(x) => Some(Const::Bool(!x)),
            _ => None,
        },
        Prim::U8Not => match x {
            Const::U8(x, style) => Some(Const::U8(!x, style)),
            _ => None,
        },
        Prim::U16Not => match x {
            Const::U16(x, _) => Some(Const::U16(!x, UIntStyle::Decimal)),
            _ => None,
        },
        Prim::U32Not => match x {
            Const::U32(x, _) => Some(Const::U32(!x, UIntStyle::Decimal)),
            _ => None,
        },
        Prim::U64Not => match x {
            Const::U64(x, _) => Some(Const::U64(!x, UIntStyle::Decimal)),
            _ => None,
        },
        Prim::S8Neg => match x {
            Const::S8(x) => if x == i8::MIN {
                None
            } else {
                Some(Const::S8(-x))
            },
            _ => None,
        },
        Prim::S16Neg => match x {
            Const::S16(x) => if x == i16::MIN {
                None
            } else {
                Some(Const::S16(-x))
            },
            _ => None,
        },
        Prim::S32Neg => match x {
            Const::S32(x) => if x == i32::MIN {
                None
            } else {
                Some(Const::S32(-x))
            },
            _ => None,
        },
        Prim::S64Neg => match x {
            Const::S64(x) => if x == i64::MIN {
                None
            } else {
                Some(Const::S64(-x))
            },
            _ => None,
        },
        Prim::S8Abs => match x {
            Const::S8(x) => if x == i8::MIN {
                None
            } else if x < 0 {
                Some(Const::S8(-x))
            } else {
                Some(Const::S8(x))
            },
            _ => None,
        },
        Prim::S16Abs => match x {
            Const::S16(x) => if x == i16::MIN {
                None
            } else if x < 0 {
                Some(Const::S16(-x))
            } else {
                Some(Const::S16(x))
            },
            _ => None,
        },
        Prim::S32Abs => match x {
            Const::S32(x) => if x == i32::MIN {
                None
            } else if x < 0 {
                Some(Const::S32(-x))
            } else {
                Some(Const::S32(x))
            },
            _ => None,
        },
        Prim::S64Abs => match x {
            Const::S64(x) => if x == i64::MIN {
                None
            } else if x < 0 {
                Some(Const::S64(-x))
            } else {
                Some(Const::S64(x))
            },
            _ => None,
        },
        Prim::S8UAbs => match x {
            Const::S8(x) => Some(Const::U8(unsigned_abs_8(x), UIntStyle::Decimal)),
            _ => None,
        },
        Prim::S16UAbs => match x {
            Const::S16(x) => Some(Const::U16(unsigned_abs_16(x), UIntStyle::Decimal)),
            _ => None,
        },
        Prim::S32UAbs => match x {
            Const::S32(x) => Some(Const::U32(unsigned_abs_32(x), UIntStyle::Decimal)),
            _ => None,
        },
        Prim::S64UAbs => match x {
            Const::S64(x) => Some(Const::U64(unsigned_abs_64(x), UIntStyle::Decimal)),
            _ => None,
        },
        _ => None,
    }
}

/// The absolute value of a signed integer of 8 bits, which always fits
/// the unsigned integer of that width.
fn unsigned_abs_8(x: i8) -> (abs: u8)
    ensures
        abs == (if x < 0 {
            -x
        } else {
            x as int
        }),
{
    if x < 0 {
        let wide: i16 = -(x as i16);
        wide as u8
    } else {
        x as u8
    }
}

/// The absolute value of a signed integer of 16 bits, which always fits
/// the unsigned integer of that width.
fn unsigned_abs_16(x: i16) -> (abs: u16)
    ensures
        abs == (if x < 0 {
            -x
        } else {
            x as int
        }),
{
    if x < 0 {
        let wide: i32 = -(x as i32);
        wide as u16
    } else {
        x as u16
    }
}

/// The absolute value of a signed integer of 32 bits, which always fits
/// the unsigned integer of that width.
fn unsigned_abs_32(x: i32) -> (abs: u32)
    ensures
        abs == (if x < 0 {
            -x
        } else {
            x as int
        }),
{
    if x < 0 {
        let wide: i64 = -(x as i64);
        wide as u32
    } else {
        x as u32
    }
}

/// The absolute value of a signed integer of 64 bits, which always fits
/// the unsigned integer of that width.
fn unsigned_abs_64(x: i64) -> (abs: u64)
    ensures
        abs == (if x < 0 {
            -x
        } else {
            x as int
        }),
{
    if x < 0 {
        let wide: i128 = -(x as i128);
        wide as u64
    } else {
        x as u64
    }
}

/// The primitives on two booleans.
fn bool_step(prim: Prim, x: Const, y: Const) -> (folded: Option<Const>)
    ensures
        folded == model::bool_binary(prim, x, y),
{
    match (x, y) {
        (Const::Bool(x), Const::Bool(y)) => match prim {
            Prim::BoolEq => Some(Const::Bool(x == y)),
            Prim::BoolNeq => Some(Const::Bool(x != y)),
            Prim::BoolAnd => Some(Const::Bool(x && y)),
            Prim::BoolOr => Some(Const::Bool(x || y)),
            Prim::BoolXor => Some(Const::Bool(x ^ y)),
            _ => None,
        },
        _ => None,
    }
}

/// The primitives on two unsigned integers of 8 bits.
fn u8_step(prim: Prim, x: Const, y: Const) -> (folded: Option<Const>)
    requires
        matches!(
            prim,
            Prim::U8Eq | Prim::U8Neq | Prim::U8Gt | Prim::U8Lt | Prim::U8Gte | Prim::U8Lte
                | Prim::U8Add | Prim::U8Sub | Prim::U8Mul | Prim::U8Div | Prim::U8Shl
                | Prim::U8Shr | Prim::U8And | Prim::U8Or | Prim::U8Xor,
        ),
    ensures
        folded == model::fold_binary(prim, x, y),
{
    match prim {
        Prim::U8Eq => match (x, y) {
            (Const::U8(x, _), Const::U8(y, _)) => Some(Const::Bool(x == y)),
            _ => None,
        },
        Prim::U8Neq => match (x, y) {
            (Const::U8(x, _), Const::U8(y, _)) => Some(Const::Bool(x != y)),
            _ => None,
        },
        Prim::U8Gt => match (x, y) {
            (Const::U8(x, _), Const::U8(y, _)) => Some(Const::Bool(x > y)),
            _ => None,
        },
        Prim::U8Lt => match (x, y) {
            (Const::U8(x, _), Const::U8(y, _)) => Some(Const::Bool(x < y)),
            _ => None,
        },
        Prim::U8Gte => match (x, y) {
            (Const::U8(x, _), Const::U8(y, _)) => Some(Const::Bool(x >= y)),
            _ => None,
        },
        Prim::U8Lte => match (x, y) {
            (Const::U8(x, _), Const::U8(y, _)) => Some(Const::Bool(x <= y)),
            _ => None,
        },
        Prim::U8Add => match (x, y) {
            (Const::U8(x, xs), Const::U8(y, ys)) => match x.checked_add(y) {
                Some(z) => Some(Const::U8(z, UIntStyle::merge(xs, ys))),
                None => None,
            },
            _ => None,
        },
        Prim::U8Sub => match (x, y) {
            (Const::U8(x, xs), Const::U8(y, ys)) => match x.checked_sub(y) {
                Some(z) => Some(Const::U8(z, UIntStyle::merge(xs, ys))),
                None => None,
            },
            _ => None,
        },
        Prim::U8Mul => match (x, y) {
            (Const::U8(x, xs), Const::U8(y, ys)) => match x.checked_mul(y) {
                Some(z) => Some(Const::U8(z, UIntStyle::merge(xs, ys))),
                None => None,
            },
            _ => None,
        },
        Prim::U8Div => match (x, y) {
            (Const::U8(x, xs), Const::U8(y, ys)) => match x.checked_div(y) {
                Some(z) => Some(Const::U8(z, UIntStyle::merge(xs, ys))),
                None => None,
            },
            _ => None,
        },
        Prim::U8Shl => match (x, y) {
            (Const::U8(x, xs), Const::U8(n, _)) => if n < 8 {
                Some(Const::U8(x << n, xs))
            } else {
                None
            },
            _ => None,
        },
        Prim::U8Shr => match (x, y) {
            (Const::U8(x, xs), Const::U8(n, _)) => if n < 8 {
                Some(Const::U8(x >> n, xs))
            } else {
                None
            },
            _ => None,
        },
        Prim::U8And => match (x, y) {
            (Const::U8(x, xs), Const::U8(y, ys)) => Some(
                Const::U8(x & y, UIntStyle::merge(xs, ys)),
            ),
            _ => None,
        },
        Prim::U8Or => match (x, y) {
            (Const::U8(x, xs), Const::U8(y, ys)) => Some(
                Const::U8(x | y, UIntStyle::merge(xs, ys)),
            ),
            _ => None,
        },
        Prim::U8Xor => match (x, y) {
            (Const::U8(x, xs), Const::U8(y, ys)) => Some(
                Const::U8(x ^ y, UIntStyle::merge(xs, ys)),
            ),
            _ => None,
        },
        _ => None,
    }
}

/// The primitives on two unsigned integers of 16 bits.
fn u16_step(prim: Prim, x: Const, y: Const) -> (folded: Option<Const>)
    requires
        matches!(
            prim,
            Prim::U16Eq | Prim::U16Neq | Prim::U16Gt | Prim::U16Lt | Prim::U16Gte
                | Prim::U16Lte | Prim::U16Add | Prim::U16Sub | Prim::U16Mul | Prim::U16Div
                | Prim::U16Shl | Prim::U16Shr | Prim::U16And | Prim::U16Or | Prim::U16Xor,
        ),
    ensures
        folded == model::fold_binary(prim, x, y),
{
    match prim {
        Prim::U16Eq => match (x, y) {
            (Const::U16(x, _), Const::U16(y, _)) => Some(Const::Bool(x == y)),
            _ => None,
        },
        Prim::U16Neq => match (x, y) {
            (Const::U16(x, _), Const::U16(y, _)) => Some(Const::Bool(x != y)),
            _ => None,
        },
        Prim::U16Gt => match (x, y) {
            (Const::U16(x, _), Const::U16(y, _)) => Some(Const::Bool(x > y)),
            _ => None,
        },
        Prim::U16Lt => match (x, y) {
            (Const::U16(x, _), Const::U16(y, _)) => Some(Const::Bool(x < y)),
            _ => None,
        },
        Prim::U16Gte => match (x, y) {
            (Const::U16(x, _), Const::U16(y, _)) => Some(Const::Bool(x >= y)),
            _ => None,
        },
        Prim::U16Lte => match (x, y) {
            (Const::U16(x, _), Const::U16(y, _)) => Some(Const::Bool(x <= y)),
            _ => None,
        },
        Prim::U16Add => match (x, y) {
            (Const::U16(x, xs), Const::U16(y, ys)) => match x.checked_add(y) {
                Some(z) => Some(Const::U16(z, UIntStyle::merge(xs, ys))),
                None => None,
            },
            _ => None,
        },
        Prim::U16Sub => match (x, y) {
            (Const::U16(x, xs), Const::U16(y, ys)) => match x.checked_sub(y) {
                Some(z) => Some(Const::U16(z, UIntStyle::merge(xs, ys))),
                None => None,
            },
            _ => None,
        },
        Prim::U16Mul => match (x, y) {
            (Const::U16(x, xs), Const::U16(y, ys)) => match x.checked_mul(y) {
                Some(z) => Some(Const::U16(z, UIntStyle::merge(xs, ys))),
                None => None,
            },
            _ => None,
        },
        Prim::U16Div => match (x, y) {
            (Const::U16(x, xs), Const::U16(y, ys)) => match x.checked_div(y) {
                Some(z) => Some(Const::U16(z, UIntStyle::merge(xs, ys))),
                None => None,
            },
            _ => None,
        },
        Prim::U16Shl => match (x, y) {
            (Const::U16(x, xs), Const::U8(n, _)) => if n < 16 {
                Some(Const::U16(x << n, xs))
            } else {
                None
            },
            _ => None,
        },
        Prim::U16Shr => match (x, y) {
            (Const::U16(x, xs), Const::U8(n, _)) => if n < 16 {
                Some(Const::U16(x >> n, xs))
            } else {
                None
            },
            _ => None,
        },
        Prim::U16And => match (x, y) {
            (Const::U16(x, xs), Const::U16(y, ys)) => Some(
                Const::U16(x & y, UIntStyle::merge(xs, ys)),
            ),
            _ => None,
        },
        Prim::U16Or => match (x, y) {
            (Const::U16(x, xs), Const::U16(y, ys)) => Some(
                Const::U16(x | y, UIntStyle::merge(xs, ys)),
            ),
            _ => None,
        },
        Prim::U16Xor => match (x, y) {
            (Const::U16(x, xs), Const::U16(y, ys)) => Some(
                Const::U16(x ^ y, UIntStyle::merge(xs, ys)),
            ),
            _ => None,
        },
        _ => None,
    }
}

/// The primitives on two unsigned integers of 32 bits.
fn u32_step(prim: Prim, x: Const, y: Const) -> (folded: Option<Const>)
    requires
        matches!(
            prim,
            Prim::U32Eq | Prim::U32Neq | Prim::U32Gt | Prim::U32Lt | Prim::U32Gte
                | Prim::U32Lte | Prim::U32Add | Prim::U32Sub | Prim::U32Mul | Prim::U32Div
                | Prim::U32Shl | Prim::U32Shr | Prim::U32And | Prim::U32Or | Prim::U32Xor,
        ),
    ensures
        folded == model::fold_binary(prim, x, y),
{
    match prim {
        Prim::U32Eq => match (x, y) {
            (Const::U32(x, _), Const::U32(y, _)) => Some(Const::Bool(x == y)),
            _ => None,
        },
        Prim::U32Neq => match (x, y) {
            (Const::U32(x, _), Const::U32(y, _)) => Some(Const::Bool(x != y)),
            _ => None,
        },
        Prim::U32Gt => match (x, y) {
            (Const::U32(x, _), Const::U32(y, _)) => Some(Const::Bool(x > y)),
            _ => None,
        },
        Prim::U32Lt => match (x, y) {
            (Const::U32(x, _), Const::U32(y, _)) => Some(Const::Bool(x < y)),
            _ => None,
        },
        Prim::U32Gte => match (x, y) {
            (Const::U32(x, _), Const::U32(y, _)) => Some(Const::Bool(x >= y)),
            _ => None,
        },
        Prim::U32Lte => match (x, y) {
            (Const::U32(x, _), Const::U32(y, _)) => Some(Const::Bool(x <= y)),
            _ => None,
        },
        Prim::U32Add => match (x, y) {
            (Const::U32(x, xs), Const::U32(y, ys)) => match x.checked_add(y) {
                Some(z) => Some(Const::U32(z, UIntStyle::merge(xs, ys))),
                None => None,
            },
            _ => None,
        },
        Prim::U32Sub => match (x, y) {
            (Const::U32(x, xs), Const::U32(y, ys)) => match x.checked_sub(y) {
                Some(z) => Some(Const::U32(z, UIntStyle::merge(xs, ys))),
                None => None,
            },
            _ => None,
        },
        Prim::U32Mul => match (x, y) {
            (Const::U32(x, xs), Const::U32(y, ys)) => match x.checked_mul(y) {
                Some(z) => Some(Const::U32(z, UIntStyle::merge(xs, ys))),
                None => None,
            },
            _ => None,
        },
        Prim::U32Div => match (x, y) {
            (Const::U32(x, xs), Const::U32(y, ys)) => match x.checked_div(y) {
                Some(z) => Some(Const::U32(z, UIntStyle::merge(xs, ys))),
                None => None,
            },
            _ => None,
        },
        Prim::U32Shl => match (x, y) {
            (Const::U32(x, xs), Const::U8(n, _)) => if n < 32 {
                Some(Const::U32(x << n, xs))
            } else {
                None
            },
            _ => None,
        },
        Prim::U32Shr => match (x, y) {
            (Const::U32(x, xs), Const::U8(n, _)) => if n < 32 {
                Some(Const::U32(x >> n, xs))
            } else {
                None
            },
            _ => None,
        },
        Prim::U32And => match (x, y) {
            (Const::U32(x, xs), Const::U32(y, ys)) => Some(
                Const::U32(x & y, UIntStyle::merge(xs, ys)),
            ),
            _ => None,
        },
        Prim::U32Or => match (x, y) {
            (Const::U32(x, xs), Const::U32(y, ys)) => Some(
                Const::U32(x | y, UIntStyle::merge(xs, ys)),
            ),
            _ => None,
        },
        Prim::U32Xor => match (x, y) {
            (Const::U32(x, xs), Const::U32(y, ys)) => Some(
                Const::U32(x ^ y, UIntStyle::merge(xs, ys)),
            ),
            _ => None,
        },
        _ => None,
    }
}

/// The primitives on two unsigned integers of 64 bits.
fn u64_step(prim: Prim, x: Const, y: Const) -> (folded: Option<Const>)
    requires
        matches!(
            prim,
            Prim::U64Eq | Prim::U64Neq | Prim::U64Gt | Prim::U64Lt | Prim::U64Gte
                | Prim::U64Lte | Prim::U64Add | Prim::U64Sub | Prim::U64Mul | Prim::U64Div
                | Prim::U64Shl | Prim::U64Shr | Prim::U64And | Prim::U64Or | Prim::U64Xor,
        ),
    ensures
        folded == model::fold_binary(prim, x, y),
{
    match prim {
        Prim::U64Eq => match (x, y) {
            (Const::U64(x, _), Const::U64(y, _)) => Some(Const::Bool(x == y)),
            _ => None,
        },
        Prim::U64Neq => match (x, y) {
            (Const::U64(x, _), Const::U64(y, _)) => Some(Const::Bool(x != y)),
            _ => None,
        },
        Prim::U64Gt => match (x, y) {
            (Const::U64(x, _), Const::U64(y, _)) => Some(Const::Bool(x > y)),
            _ => None,
        },
        Prim::U64Lt => match (x, y) {
            (Const::U64(x, _), Const::U64(y, _)) => Some(Const::Bool(x < y)),
            _ => None,
        },
        Prim::U64Gte => match (x, y) {
            (Const::U64(x, _), Const::U64(y, _)) => Some(Const::Bool(x >= y)),
            _ => None,
        },
        Prim::U64Lte => match (x, y) {
            (Const::U64(x, _), Const::U64(y, _)) => Some(Const::Bool(x <= y)),
            _ => None,
        },
        Prim::U64Add => match (x, y) {
            (Const::U64(x, xs), Const::U64(y, ys)) => match x.checked_add(y) {
                Some(z) => Some(Const::U64(z, UIntStyle::merge(xs, ys))),
                None => None,
            },
            _ => None,
        },
        Prim::U64Sub => match (x, y) {
            (Const::U64(x, xs), Const::U64(y, ys)) => match x.checked_sub(y) {
                Some(z) => Some(Const::U64(z, UIntStyle::merge(xs, ys))),
                None => None,
            },
            _ => None,
        },
        Prim::U64Mul => match (x, y) {
            (Const::U64(x, xs), Const::U64(y, ys)) => match x.checked_mul(y) {
                Some(z) => Some(Const::U64(z, UIntStyle::merge(xs, ys))),
                None => None,
            },
            _ => None,
        },
        Prim::U64Div => match (x, y) {
            (Const::U64(x, xs), Const::U64(y, ys)) => match x.checked_div(y) {
                Some(z) => Some(Const::U64(z, UIntStyle::merge(xs, ys))),
                None => None,
            },
            _ => None,
        },
        Prim::U64Shl => match (x, y) {
            (Const::U64(x, xs), Const::U8(n, _)) => if n < 64 {
                Some(Const::U64(x << n, xs))
            } else {
                None
            },
            _ => None,
        },
        Prim::U64Shr => match (x, y) {
            (Const::U64(x, xs), Const::U8(n, _)) => if n < 64 {
                Some(Const::U64(x >> n, xs))
            } else {
                None
            },
            _ => None,
        },
        Prim::U64And => match (x, y) {
            (Const::U64(x, xs), Const::U64(y, ys)) => Some(
                Const::U64(x & y, UIntStyle::merge(xs, ys)),
            ),
            _ => None,
        },
        Prim::U64Or => match (x, y) {
            (Const::U64(x, xs), Const::U64(y, ys)) => Some(
                Const::U64(x | y, UIntStyle::merge(xs, ys)),
            ),
            _ => None,
        },
        Prim::U64Xor => match (x, y) {
            (Const::U64(x, xs), Const::U64(y, ys)) => Some(
                Const::U64(x ^ y, UIntStyle::merge(xs, ys)),
            ),
            _ => None,
        },
        _ => None,
    }
}

/// The primitives on two signed integers of 8 bits.
fn s8_step(prim: Prim, x: Const, y: Const) -> (folded: Option<Const>)
    requires
        matches!(
            prim,
            Prim::S8Eq | Prim::S8Neq | Prim::S8Gt | Prim::S8Lt | Prim::S8Gte | Prim::S8Lte
                | Prim::S8Add | Prim::S8Sub | Prim::S8Mul | Prim::S8Div,
        ),
    ensures
        folded == model::fold_binary(prim, x, y),
{
    match prim {
        Prim::S8Eq => match (x, y) {
            (Const::S8(x), Const::S8(y)) => Some(Const::Bool(x == y)),
            _ => None,
        },
        Prim::S8Neq => match (x, y) {
            (Const::S8(x), Const::S8(y)) => Some(Const::Bool(x != y)),
            _ => None,
        },
        Prim::S8Gt => match (x, y) {
            (Const::S8(x), Const::S8(y)) => Some(Const::Bool(x > y)),
            _ => None,
        },
        Prim::S8Lt => match (x, y) {
            (Const::S8(x), Const::S8(y)) => Some(Const::Bool(x < y)),
            _ => None,
        },
        Prim::S8Gte => match (x, y) {
            (Const::S8(x), Const::S8(y)) => Some(Const::Bool(x >= y)),
            _ => None,
        },
        Prim::S8Lte => match (x, y) {
            (Const::S8(x), Const::S8(y)) => Some(Const::Bool(x <= y)),
            _ => None,
        },
        Prim::S8Add => match (x, y) {
            (Const::S8(x), Const::S8(y)) => match x.checked_add(y) {
                Some(z) => Some(Const::S8(z)),
                None => None,
            },
            _ => None,
        },
        Prim::S8Sub => match (x, y) {
            (Const::S8(x), Const::S8(y)) => match x.checked_sub(y) {
                Some(z) => Some(Const::S8(z)),
                None => None,
            },
            _ => None,
        },
        Prim::S8Mul => match (x, y) {
            (Const::S8(x), Const::S8(y)) => match x.checked_mul(y) {
                Some(z) => Some(Const::S8(z)),
                None => None,
            },
            _ => None,
        },
        Prim::S8Div => match (x, y) {
            (Const::S8(x), Const::S8(y)) => match x.checked_div(y) {
                Some(z) => Some(Const::S8(z)),
                None => None,
            },
            _ => None,
        },
        _ => None,
    }
}

/// The primitives on two signed integers of 16 bits.
fn s16_step(prim: Prim, x: Const, y: Const) -> (folded: Option<Const>)
    requires
        matches!(
            prim,
            Prim::S16Eq | Prim::S16Neq | Prim::S16Gt | Prim::S16Lt | Prim::S16Gte
                | Prim::S16Lte | Prim::S16Add | Prim::S16Sub | Prim::S16Mul | Prim::S16Div,
        ),
    ensures
        folded == model::fold_binary(prim, x, y),
{
    match prim {
        Prim::S16Eq => match (x, y) {
            (Const::S16(x), Const::S16(y)) => Some(Const::Bool(x == y)),
            _ => None,
        },
        Prim::S16Neq => match (x, y) {
            (Const::S16(x), Const::S16(y)) => Some(Const::Bool(x != y)),
            _ => None,
        },
        Prim::S16Gt => match (x, y) {
            (Const::S16(x), Const::S16(y)) => Some(Const::Bool(x > y)),
            _ => None,
        },
        Prim::S16Lt => match (x, y) {
            (Const::S16(x), Const::S16(y)) => Some(Const::Bool(x < y)),
            _ => None,
        },
        Prim::S16Gte => match (x, y) {
            (Const::S16(x), Const::S16(y)) => Some(Const::Bool(x >= y)),
            _ => None,
        },
        Prim::S16Lte => match (x, y) {
            (Const::S16(x), Const::S16(y)) => Some(Const::Bool(x <= y)),
            _ => None,
        },
        Prim::S16Add => match (x, y) {
            (Const::S16(x), Const::S16(y)) => match x.checked_add(y) {
                Some(z) => Some(Const::S16(z)),
                None => None,
            },
            _ => None,
        },
        Prim::S16Sub => match (x, y) {
            (Const::S16(x), Const::S16(y)) => match x.checked_sub(y) {
                Some(z) => Some(Const::S16(z)),
                None => None,
            },
            _ => None,
        },
        Prim::S16Mul => match (x, y) {
            (Const::S16(x), Const::S16(y)) => match x.checked_mul(y) {
                Some(z) => Some(Const::S16(z)),
                None => None,
            },
            _ => None,
        },
        Prim::S16Div => match (x, y) {
            (Const::S16(x), Const::S16(y)) => match x.checked_div(y) {
                Some(z) => Some(Const::S16(z)),
                None => None,
            },
            _ => None,
        },
        _ => None,
    }
}

/// The primitives on two signed integers of 32 bits.
fn s32_step(prim: Prim, x: Const, y: Const) -> (folded: Option<Const>)
    requires
        matches!(
            prim,
            Prim::S32Eq | Prim::S32Neq | Prim::S32Gt | Prim::S32Lt | Prim::S32Gte
                | Prim::S32Lte | Prim::S32Add | Prim::S32Sub | Prim::S32Mul | Prim::S32Div,
        ),
    ensures
        folded == model::fold_binary(prim, x, y),
{
    match prim {
        Prim::S32Eq => match (x, y) {
            (Const::S32(x), Const::S32(y)) => Some(Const::Bool(x == y)),
            _ => None,
        },
        Prim::S32Neq => match (x, y) {
            (Const::S32(x), Const::S32(y)) => Some(Const::Bool(x != y)),
            _ => None,
        },
        Prim::S32Gt => match (x, y) {
            (Const::S32(x), Const::S32(y)) => Some(Const::Bool(x > y)),
            _ => None,
        },
        Prim::S32Lt => match (x, y) {
            (Const::S32(x), Const::S32(y)) => Some(Const::Bool(x < y)),
            _ => None,
        },
        Prim::S32Gte => match (x, y) {
            (Const::S32(x), Const::S32(y)) => Some(Const::Bool(x >= y)),
            _ => None,
        },
        Prim::S32Lte => match (x, y) {
            (Const::S32(x), Const::S32(y)) => Some(Const::Bool(x <= y)),
            _ => None,
        },
        Prim::S32Add => match (x, y) {
            (Const::S32(x), Const::S32(y)) => match x.checked_add(y) {
                Some(z) => Some(Const::S32(z)),
                None => None,
            },
            _ => None,
        },
        Prim::S32Sub => match (x, y) {
            (Const::S32(x), Const::S32(y)) => match x.checked_sub(y) {
                Some(z) => Some(Const::S32(z)),
                None => None,
            },
            _ => None,
        },
        Prim::S32Mul => match (x, y) {
            (Const::S32(x), Const::S32(y)) => match x.checked_mul(y) {
                Some(z) => Some(Const::S32(z)),
                None => None,
            },
            _ => None,
        },
        Prim::S32Div => match (x, y) {
            (Const::S32(x), Const::S32(y)) => match x.checked_div(y) {
                Some(z) => Some(Const::S32(z)),
                None => None,
            },
            _ => None,
        },
        _ => None,
    }
}

/// The primitives on two signed integers of 64 bits.
fn s64_step(prim: Prim, x: Const, y: Const) -> (folded: Option<Const>)
    requires
        matches!(
            prim,
            Prim::S64Eq | Prim::S64Neq | Prim::S64Gt | Prim::S64Lt | Prim::S64Gte
                | Prim::S64Lte | Prim::S64Add | Prim::S64Sub | Prim::S64Mul | Prim::S64Div,
        ),
    ensures
        folded == model::fold_binary(prim, x, y),
{
    match prim {
        Prim::S64Eq => match (x, y) {
            (Const::S64(x), Const::S64(y)) => Some(Const::Bool(x == y)),
            _ => None,
        },
        Prim::S64Neq => match (x, y) {
            (Const::S64(x), Const::S64(y)) => Some(Const::Bool(x != y)),
            _ => None,
        },
        Prim::S64Gt => match (x, y) {
            (Const::S64(x), Const::S64(y)) => Some(Const::Bool(x > y)),
            _ => None,
        },
        Prim::S64Lt => match (x, y) {
            (Const::S64(x), Const::S64(y)) => Some(Const::Bool(x < y)),
            _ => None,
        },
        Prim::S64Gte => match (x, y) {
            (Const::S64(x), Const::S64(y)) => Some(Const::Bool(x >= y)),
            _ => None,
        },
        Prim::S64Lte => match (x, y) {
            (Const::S64(x), Const::S64(y)) => Some(Const::Bool(x <= y)),
            _ => None,
        },
        Prim::S64Add => match (x, y) {
            (Const::S64(x), Const::S64(y)) => match x.checked_add(y) {
                Some(z) => Some(Const::S64(z)),
                None => None,
            },
            _ => None,
        },
        Prim::S64Sub => match (x, y) {
            (Const::S64(x), Const::S64(y)) => match x.checked_sub(y) {
                Some(z) => Some(Const::S64(z)),
                None => None,
            },
            _ => None,
        },
        Prim::S64Mul => match (x, y) {
            (Const::S64(x), Const::S64(y)) => match x.checked_mul(y) {
                Some(z) => Some(Const::S64(z)),
                None => None,
            },
            _ => None,
        },
        Prim::S64Div => match (x, y) {
            (Const::S64(x), Const::S64(y)) => match x.checked_div(y) {
                Some(z) => Some(Const::S64(z)),
                None => None,
            },
            _ => None,
        },
        _ => None,
    }
}

/// The primitives that move a position forward.
fn pos_step(prim: Prim, x: Const, y: Const) -> (folded: Option<Const>)
    requires
        matches!(prim, Prim::PosAddU8 | Prim::PosAddU16 | Prim::PosAddU32 | Prim::PosAddU64),
    ensures
        folded == model::fold_binary(prim, x, y),
{
    let by = match (prim, y) {
        (Prim::PosAddU8, Const::U8(y, _)) => Some(y as usize),
        (Prim::PosAddU16, Const::U16(y, _)) => Some(y as usize),
        (Prim::PosAddU32, Const::U32(y, _)) => match usize::try_from(y) {
            Ok(y) => Some(y),
            Err(_) => None,
        },
        (Prim::PosAddU64, Const::U64(y, _)) => match usize::try_from(y) {
            Ok(y) => Some(y),
            Err(_) => None,
        },
        _ => None,
    };
    match (x, by) {
        (Const::Pos(x), Some(y)) => match x.checked_add(y) {
            Some(z) => Some(Const::Pos(z)),
            None => None,
        },
        _ => None,
    }
}

/// What a primitive of two arguments computes on two constants, if
/// anything.
pub fn binary_step(prim: Prim, x: Const, y: Const) -> (folded: Option<Const>)
    ensures
        folded == model::fold_binary(prim, x, y),
{
    match prim {
        Prim::BoolEq | Prim::BoolNeq | Prim::BoolAnd | Prim::BoolOr | Prim::BoolXor => bool_step(
            prim,
            x,
            y,
        ),
        Prim::U8Eq | Prim::U8Neq | Prim::U8Gt | Prim::U8Lt | Prim::U8Gte | Prim::U8Lte
            | Prim::U8Add | Prim::U8Sub | Prim::U8Mul | Prim::U8Div | Prim::U8Shl | Prim::U8Shr
            | Prim::U8And | Prim::U8Or | Prim::U8Xor => u8_step(prim, x, y),
        Prim::U16Eq | Prim::U16Neq | Prim::U16Gt | Prim::U16Lt | Prim::U16Gte | Prim::U16Lte
            | Prim::U16Add | Prim::U16Sub | Prim::U16Mul | Prim::U16Div | Prim::U16Shl
            | Prim::U16Shr | Prim::U16And | Prim::U16Or | Prim::U16Xor => u16_step(prim, x, y),
        Prim::U32Eq | Prim::U32Neq | Prim::U32Gt | Prim::U32Lt | Prim::U32Gte | Prim::U32Lte
            | Prim::U32Add | Prim::U32Sub | Prim::U32Mul | Prim::U32Div | Prim::U32Shl
            | Prim::U32Shr | Prim::U32And | Prim::U32Or | Prim::U32Xor => u32_step(prim, x, y),
        Prim::U64Eq | Prim::U64Neq | Prim::U64Gt | Prim::U64Lt | Prim::U64Gte | Prim::U64Lte
            | Prim::U64Add | Prim::U64Sub | Prim::U64Mul | Prim::U64Div | Prim::U64Shl
            | Prim::U64Shr | Prim::U64And | Prim::U64Or | Prim::U64Xor => u64_step(prim, x, y),
        Prim::S8Eq | Prim::S8Neq | Prim::S8Gt | Prim::S8Lt | Prim::S8Gte | Prim::S8Lte
            | Prim::S8Add | Prim::S8Sub | Prim::S8Mul | Prim::S8Div => s8_step(prim, x, y),
        Prim::S16Eq | Prim::S16Neq | Prim::S16Gt | Prim::S16Lt | Prim::S16Gte | Prim::S16Lte
            | Prim::S16Add | Prim::S16Sub | Prim::S16Mul | Prim::S16Div => s16_step(prim, x, y),
        Prim::S32Eq | Prim::S32Neq | Prim::S32Gt | Prim::S32Lt | Prim::S32Gte | Prim::S32Lte
            | Prim::S32Add | Prim::S32Sub | Prim::S32Mul | Prim::S32Div => s32_step(prim, x, y),
        Prim::S64Eq | Prim::S64Neq | Prim::S64Gt | Prim::S64Lt | Prim::S64Gte | Prim::S64Lte
            | Prim::S64Add | Prim::S64Sub | Prim::S64Mul | Prim::S64Div => s64_step(prim, x, y),
        Prim::PosAddU8 | Prim::PosAddU16 | Prim::PosAddU32 | Prim::PosAddU64 => pos_step(prim, x, y),
        _ => None,
    }
}

} // verus!
