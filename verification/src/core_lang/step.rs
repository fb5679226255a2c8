//! The reduction of primitives that are applied to enough arguments.

use crate::core_lang::model;
use crate::core_lang::model::Head;
use crate::core_lang::model::{ArcValueV, Stop, ValueV};
use crate::core_lang::prim::{binary_step, unary_step};
use crate::core_lang::repr::{prim0, prim1};
use crate::core_lang::semantics::{
    clone_value, spine_view, step_result, values_view, ArcValue, Elim, ElimEnv, Value,
};
use crate::core_lang::{Const, Prim};
use crate::source::{Span, Spanned};
use std::sync::Arc;
use vstd::prelude::*;

verus! {

/// The constant that an elimination applies to.
fn const_arg<'arena>(elim: &Elim<'arena>) -> (constant: Option<Const>)
    ensures
        constant == model::const_arg(elim@),
{
    match elim {
        Elim::FunApp(arg) => match &*arg.inner {
            Value::ConstLit(constant) => Some(*constant),
            _ => None,
        },
        _ => None,
    }
}

/// The model of a value that may be there.
pub open spec fn option_view(value: Option<ArcValue>) -> Option<ArcValueV> {
    match value {
        Some(value) => Some(value@),
        None => None,
    }
}

/// One step of a primitive that computes on constants.
fn const_step<'arena>(prim: Prim, spine: &Vec<Elim<'arena>>) -> (value: Option<ArcValue<'arena>>)
    ensures
        option_view(value) == model::const_step(prim, spine_view(spine@)),
{
    let folded = if spine.len() == 1 {
        match const_arg(&spine[0]) {
            Some(x) => unary_step(prim, x),
            None => None,
        }
    } else if spine.len() == 2 {
        match (const_arg(&spine[0]), const_arg(&spine[1])) {
            (Some(x), Some(y)) => binary_step(prim, x, y),
            _ => None,
        }
    } else {
        None
    };
    match folded {
        Some(constant) => Some(Spanned::empty(Arc::new(Value::ConstLit(constant)))),
        None => None,
    }
}

/// The arguments that a spine of four function applications holds in its
/// last two places.
fn last_two_of_four<'a, 'arena>(spine: &'a Vec<Elim<'arena>>) -> (args: Option<
    (&'a ArcValue<'arena>, &'a ArcValue<'arena>),
>)
    ensures
        match args {
            Some((third, fourth)) => model::is_args(spine_view(spine@), 4) && model::app_arg(
                spine_view(spine@)[2],
            ) == Some(third@) && model::app_arg(spine_view(spine@)[3]) == Some(fourth@),
            None => !model::is_args(spine_view(spine@), 4),
        },
{
    if spine.len() != 4 {
        return None;
    }
    match (&spine[0], &spine[1], &spine[2], &spine[3]) {
        (Elim::FunApp(_), Elim::FunApp(_), Elim::FunApp(third), Elim::FunApp(fourth)) => Some(
            (third, fourth),
        ),
        _ => None,
    }
}

/// The index that a constant stands for.
fn index_of(constant: &Const) -> (index: Option<usize>)
    ensures
        match index {
            Some(index) => model::index_of(*constant) == Some(index as int),
            None => model::index_of(*constant) is None,
        },
{
    match constant {
        Const::U8(index, _) => Some(*index as usize),
        Const::U16(index, _) => Some(*index as usize),
        Const::U32(index, _) => match usize::try_from(*index) {
            Ok(index) => Some(index),
            Err(_) => None,
        },
        Const::U64(index, _) => match usize::try_from(*index) {
            Ok(index) => Some(index),
            Err(_) => None,
        },
        _ => None,
    }
}

/// The element of an array literal at a constant index.
fn array_index<'arena>(spine: &Vec<Elim<'arena>>) -> (value: Option<ArcValue<'arena>>)
    ensures
        option_view(value) == model::array_index(spine_view(spine@)),
{
    match last_two_of_four(spine) {
        Some((index, array)) => match (&*index.inner, &*array.inner) {
            (Value::ConstLit(constant), Value::ArrayLit(elems)) => {
                assert(index@.value == ValueV::ConstLit(*constant));
                assert(array@.value == ValueV::ArrayLit(values_view(elems@)));
                match index_of(constant) {
                    Some(index) => if index < elems.len() {
                        Some(clone_value(&elems[index]))
                    } else {
                        None
                    },
                    None => None,
                }
            },
            _ => None,
        },
        None => None,
    }
}

impl<'arena, 'env> ElimEnv<'arena, 'env> {
    /// One step of a primitive on the arguments in a spine: the value that
    /// the application reduces to, where it does.
    pub fn prim_step(&self, prim: Prim, spine: &Vec<Elim<'arena>>, fuel: usize) -> (result: Result<
        Option<ArcValue<'arena>>,
        Stop,
    >)
        ensures
            step_result(result) == model::prim_step(fuel as nat, self@, prim, spine_view(spine@)),
        decreases fuel, 1nat,
    {
        if fuel == 0 {
            return Err(Stop::Limit);
        }
        let f = fuel - 1;
        match prim {
            Prim::FormatRepr => {
                if spine.len() == 1 {
                    match &spine[0] {
                        Elim::FunApp(format) => match self.format_repr(format, f) {
                            Ok(repr) => Ok(Some(repr)),
                            Err(stop) => Err(stop),
                        },
                        _ => Ok(None),
                    }
                } else {
                    Ok(None)
                }
            },
            Prim::OptionFold => self.option_fold(spine, f),
            Prim::Array8Find | Prim::Array16Find | Prim::Array32Find | Prim::Array64Find => {
                match last_two_of_four(spine) {
                    Some((pred, array)) => match &*array.inner {
                        Value::ArrayLit(elems) => self.array_find(pred, elems, f),
                        _ => Ok(None),
                    },
                    None => Ok(None),
                }
            },
            Prim::Array8Index | Prim::Array16Index | Prim::Array32Index | Prim::Array64Index => {
                Ok(array_index(spine))
            },
            _ => Ok(const_step(prim, spine)),
        }
    }

    /// Folds an option: the spine holds two types, the result for no value,
    /// the function for some value, and the option.
    fn option_fold(&self, spine: &Vec<Elim<'arena>>, fuel: usize) -> (result: Result<
        Option<ArcValue<'arena>>,
        Stop,
    >)
        ensures
            step_result(result) == (if model::is_args(spine_view(spine@), 5) {
                model::option_fold(
                    fuel as nat,
                    self@,
                    model::app_arg(spine_view(spine@)[2])->0,
                    model::app_arg(spine_view(spine@)[3])->0,
                    model::app_arg(spine_view(spine@)[4])->0,
                )
            } else {
                Ok(None)
            }),
        decreases fuel, 1nat,
    {
        if spine.len() != 5 {
            return Ok(None);
        }
        match (&spine[0], &spine[1], &spine[2], &spine[3], &spine[4]) {
            (
                Elim::FunApp(_),
                Elim::FunApp(_),
                Elim::FunApp(on_none),
                Elim::FunApp(on_some),
                Elim::FunApp(option),
            ) => match &*option.inner {
                Value::Stuck(Head::Prim(Prim::OptionSome), args) => {
                    assert(option@.value == ValueV::Stuck(
                        Head::Prim(Prim::OptionSome),
                        spine_view(args@),
                    ));
                    if args.len() == 1 {
                        match &args[0] {
                            Elim::FunApp(value) => match self.fun_app(
                                clone_value(on_some),
                                clone_value(value),
                                fuel,
                            ) {
                                Ok(value) => Ok(Some(value)),
                                Err(stop) => Err(stop),
                            },
                            _ => Ok(None),
                        }
                    } else {
                        Ok(None)
                    }
                },
                Value::Stuck(Head::Prim(Prim::OptionNone), args) => {
                    assert(option@.value == ValueV::Stuck(
                        Head::Prim(Prim::OptionNone),
                        spine_view(args@),
                    ));
                    if args.len() == 0 {
                        Ok(Some(clone_value(on_none)))
                    } else {
                        Ok(None)
                    }
                },
                _ => Ok(None),
            },
            _ => Ok(None),
        }
    }

    /// Looks for the first element that a predicate holds of.
    fn array_find(
        &self,
        pred: &ArcValue<'arena>,
        elems: &Vec<ArcValue<'arena>>,
        fuel: usize,
    ) -> (result: Result<Option<ArcValue<'arena>>, Stop>)
        ensures
            step_result(result) == model::array_find(
                fuel as nat,
                self@,
                pred@,
                values_view(elems@),
                0,
            ),
        decreases fuel, 1nat,
    {
        let mut i: usize = 0;
        while i < elems.len()
            invariant
                i <= elems.len(),
                model::array_find(fuel as nat, self@, pred@, values_view(elems@), 0)
                    == model::array_find(fuel as nat, self@, pred@, values_view(elems@), i as int),
            decreases elems.len() - i,
        {
            let elem = &elems[i];
            let found = match self.fun_app(clone_value(pred), clone_value(elem), fuel) {
                Ok(found) => found,
                Err(stop) => {
                    return Err(stop);
                },
            };
            match &*found.inner {
                Value::ConstLit(Const::Bool(true)) => {
                    return Ok(Some(prim1(elem.span, Prim::OptionSome, clone_value(elem))));
                },
                Value::ConstLit(Const::Bool(false)) => {},
                _ => {
                    return Ok(None);
                },
            }
            i = i + 1;
        }
        Ok(Some(prim0(Span::Empty, Prim::OptionNone)))
    }
}

} // verus!
