//! The representation of formats: the type of the values that parsing a
//! format yields.

use crate::core_lang::model;
use crate::core_lang::model::{ArcValueV, Stop};
use crate::core_lang::model::{Error, Head};
use crate::core_lang::semantics::{clone_value, spine_view, value_result, values_view, ArcValue, Elim, ElimEnv, Value};
use crate::core_lang::Prim;
use crate::source::{Span, Spanned};
use std::sync::Arc;
use vstd::prelude::*;

verus! {

/// A primitive without arguments.
pub(crate) fn prim0<'arena>(span: Span, prim: Prim) -> (value: ArcValue<'arena>)
    ensures
        value@ == model::spanned(span, model::prim_value(prim, Seq::empty())),
{
    let value = Value::prim(prim, Vec::new());
    assert(values_view(Seq::<ArcValue>::empty()) =~= Seq::<ArcValueV>::empty());
    Spanned::new(span, Arc::new(value))
}

/// A primitive applied to one argument.
pub(crate) fn prim1<'arena>(span: Span, prim: Prim, arg: ArcValue<'arena>) -> (value: ArcValue<
    'arena,
>)
    ensures
        value@ == model::spanned(span, model::prim_value(prim, seq![arg@])),
{
    let mut params = Vec::new();
    params.push(arg);
    assert(values_view(params@) =~= seq![arg@]);
    Spanned::new(span, Arc::new(Value::prim(prim, params)))
}

/// A primitive applied to two arguments.
pub(crate) fn prim2<'arena>(
    span: Span,
    prim: Prim,
    first: ArcValue<'arena>,
    second: ArcValue<'arena>,
) -> (value: ArcValue<'arena>)
    ensures
        value@ == model::spanned(span, model::prim_value(prim, seq![first@, second@])),
{
    let mut params = Vec::new();
    params.push(first);
    params.push(second);
    assert(values_view(params@) =~= seq![first@, second@]);
    Spanned::new(span, Arc::new(Value::prim(prim, params)))
}

/// The representation type of a format without arguments.
fn atomic_repr(prim: Prim) -> (repr: Option<Prim>)
    ensures
        repr == model::atomic_repr(prim),
{
    match prim {
        Prim::FormatU8 => Some(Prim::U8Type),
        Prim::FormatU16Be => Some(Prim::U16Type),
        Prim::FormatU16Le => Some(Prim::U16Type),
        Prim::FormatU32Be => Some(Prim::U32Type),
        Prim::FormatU32Le => Some(Prim::U32Type),
        Prim::FormatU64Be => Some(Prim::U64Type),
        Prim::FormatU64Le => Some(Prim::U64Type),
        Prim::FormatS8 => Some(Prim::S8Type),
        Prim::FormatS16Be => Some(Prim::S16Type),
        Prim::FormatS16Le => Some(Prim::S16Type),
        Prim::FormatS32Be => Some(Prim::S32Type),
        Prim::FormatS32Le => Some(Prim::S32Type),
        Prim::FormatS64Be => Some(Prim::S64Type),
        Prim::FormatS64Le => Some(Prim::S64Type),
        Prim::FormatF32Be => Some(Prim::F32Type),
        Prim::FormatF32Le => Some(Prim::F32Type),
        Prim::FormatF64Be => Some(Prim::F64Type),
        Prim::FormatF64Le => Some(Prim::F64Type),
        Prim::FormatStreamPos => Some(Prim::PosType),
        Prim::FormatFail => Some(Prim::VoidType),
        Prim::ReportedError => Some(Prim::ReportedError),
        _ => None,
    }
}

/// The array type that represents an array format.
fn array_repr(prim: Prim) -> (repr: Option<Prim>)
    ensures
        repr == model::array_repr(prim),
{
    match prim {
        Prim::FormatArray8 => Some(Prim::Array8Type),
        Prim::FormatArray16 => Some(Prim::Array16Type),
        Prim::FormatArray32 => Some(Prim::Array32Type),
        Prim::FormatArray64 => Some(Prim::Array64Type),
        _ => None,
    }
}

impl<'arena, 'env> ElimEnv<'arena, 'env> {
    /// Find the representation type of a format description.
    pub fn format_repr(&self, format: &ArcValue<'arena>, fuel: usize) -> (result: Result<
        ArcValue<'arena>,
        Stop,
    >)
        ensures
            value_result(result) == model::format_repr(fuel as nat, self@, format@),
        decreases fuel, 0nat,
    {
        if fuel == 0 {
            return Err(Stop::Limit);
        }
        let f = fuel - 1;
        let span = format.span;
        match &*format.inner {
            Value::FormatRecord(labels, formats) | Value::FormatOverlap(labels, formats) => {
                let types = formats.clone().apply_repr();
                assert(types@ == model::repr_telescope(formats@));
                Ok(Spanned::new(span, Arc::new(Value::RecordType(labels, types))))
            },
            Value::FormatCond(_, format, _) => self.format_repr(format, f),
            Value::Stuck(Head::Prim(prim), spine) => self.prim_repr(format, *prim, spine, f),
            Value::Stuck(_, _) => Ok(stuck_repr(format)),
            _ => Err(Stop::Error(Error::InvalidFormatRepr)),
        }
    }

    /// The representation of a format that is a primitive applied to
    /// arguments.
    fn prim_repr(
        &self,
        format: &ArcValue<'arena>,
        prim: Prim,
        spine: &Vec<Elim<'arena>>,
        fuel: usize,
    ) -> (result: Result<ArcValue<'arena>, Stop>)
        ensures
            value_result(result) == model::prim_repr(
                fuel as nat,
                self@,
                format@,
                prim,
                spine_view(spine@),
            ),
        decreases fuel, 2nat,
    {
        let span = format.span;
        if spine.len() == 0 {
            match atomic_repr(prim) {
                Some(repr) => Ok(prim0(span, repr)),
                None => Ok(stuck_repr(format)),
            }
        } else if spine.len() == 1 {
            match (prim, &spine[0]) {
                (Prim::FormatRepeatUntilEnd, Elim::FunApp(elem)) => match self.format_repr(
                    elem,
                    fuel,
                ) {
                    Ok(repr) => Ok(prim1(span, Prim::ArrayType, repr)),
                    Err(stop) => Err(stop),
                },
                _ => Ok(stuck_repr(format)),
            }
        } else if spine.len() == 2 {
            assert(spine_view(spine@) =~= seq![spine[0]@, spine[1]@]);
            self.prim_repr2(format, prim, &spine[0], &spine[1], fuel)
        } else {
            Ok(stuck_repr(format))
        }
    }

    /// The representation of a format that is a primitive applied to two
    /// arguments.
    fn prim_repr2(
        &self,
        format: &ArcValue<'arena>,
        prim: Prim,
        first: &Elim<'arena>,
        second: &Elim<'arena>,
        fuel: usize,
    ) -> (result: Result<ArcValue<'arena>, Stop>)
        ensures
            value_result(result) == model::prim_repr(
                fuel as nat,
                self@,
                format@,
                prim,
                seq![first@, second@],
            ),
        decreases fuel, 1nat,
    {
        let span = format.span;
        match (first, second) {
            (Elim::FunApp(len), Elim::FunApp(elem)) => match array_repr(prim) {
                Some(array) => {
                    return match self.format_repr(elem, fuel) {
                        Ok(repr) => Ok(prim2(span, array, clone_value(len), repr)),
                        Err(stop) => Err(stop),
                    };
                },
                None => {},
            },
            _ => {},
        }
        match (prim, first, second) {
            (Prim::FormatLimit8, _, Elim::FunApp(elem)) => self.format_repr(elem, fuel),
            (Prim::FormatLimit16, _, Elim::FunApp(elem)) => self.format_repr(elem, fuel),
            (Prim::FormatLimit32, _, Elim::FunApp(elem)) => self.format_repr(elem, fuel),
            (Prim::FormatLimit64, _, Elim::FunApp(elem)) => self.format_repr(elem, fuel),
            (Prim::FormatLink, _, Elim::FunApp(elem)) => Ok(
                prim1(span, Prim::RefType, clone_value(elem)),
            ),
            (Prim::FormatDeref, Elim::FunApp(elem), _) => self.format_repr(elem, fuel),
            (Prim::FormatSucceed, Elim::FunApp(elem), _) => Ok(clone_value(elem)),
            (Prim::FormatUnwrap, Elim::FunApp(elem), _) => Ok(clone_value(elem)),
            _ => Ok(stuck_repr(format)),
        }
    }
}

/// The representation of a format that is not known yet.
fn stuck_repr<'arena>(format: &ArcValue<'arena>) -> (repr: ArcValue<'arena>)
    ensures
        repr@ == model::stuck_repr(format@),
{
    prim1(format.span, Prim::FormatRepr, clone_value(format))
}

} // verus!
