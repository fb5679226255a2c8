//! Bidirectional elaboration of the surface language into the core language.

use crate::minimal::model;
use crate::minimal::model::ValueV;
use crate::minimal::semantics;
use crate::minimal::semantics::{env_view, fresh_var, place, Value, ValueEnv};
use crate::minimal::surface;
use crate::minimal::syntax::{Term, TermV};
use crate::minimal::{EnvLen, LocalVar, StringId};
use crate::shared::share;
use std::sync::Arc;
use typed_arena::Arena;
use vstd::prelude::*;

verus! {

/// What elaboration yields: the result, or the message of the error that
/// stopped it, where it reports one.
pub type Elaborated<T> = Result<T, Option<Seq<char>>>;

/// The models of the names and types in scope, the oldest first.
pub open spec fn types_view(types: Seq<(StringId, Arc<Value>)>) -> Seq<(StringId, ValueV)> {
    Seq::new(types.len(), |i: int| (types[i].0, types[i].1@))
}

/// The number of bindings between the most recent binding and the most
/// recent binding of `name`, counted from `from` on.
pub open spec fn lookup(types: Seq<(StringId, ValueV)>, name: StringId, from: int) -> Option<int>
    decreases types.len() - from,
{
    if from < 0 || from >= types.len() {
        None
    } else if types[types.len() - 1 - from].0 == name {
        Some(from)
    } else {
        lookup(types, name, from + 1)
    }
}

/// The value of a term that elaboration has yielded. A failure of the
/// evaluation stops the elaboration without a message.
pub open spec fn evaluated(limit: nat, env: Seq<ValueV>, term: TermV) -> Elaborated<ValueV> {
    match model::eval(limit, env, term) {
        Ok(value) => Ok(value),
        Err(_) => Err(None),
    }
}

/// The elaboration of the type and the expression of a definition: the
/// type is checked to be a type, and the expression to be of that type.
/// The terms and their values come back.
pub open spec fn check_def(
    limit: nat,
    types: Seq<(StringId, ValueV)>,
    env: Seq<ValueV>,
    term: &surface::Term,
) -> Elaborated<(TermV, ValueV, TermV, ValueV)>
    decreases term, 0nat,
{
    match term {
        surface::Term::Let(_, def_type, def_expr, _) => match check(
            limit,
            types,
            env,
            def_type,
            ValueV::Universe,
        ) {
            Ok(def_type) => match evaluated(limit, env, def_type) {
                Ok(def_type_value) => match check(limit, types, env, def_expr, def_type_value) {
                    Ok(def_expr) => match evaluated(limit, env, def_expr) {
                        Ok(def_expr_value) => if env.len() < model::max_len() {
                            Ok((def_type, def_type_value, def_expr, def_expr_value))
                        } else {
                            Err(None)
                        },
                        Err(stop) => Err(stop),
                    },
                    Err(stop) => Err(stop),
                },
                Err(stop) => Err(stop),
            },
            Err(stop) => Err(stop),
        },
        _ => Err(None),
    }
}

/// Checks that a surface term conforms to a type, and yields the core term.
///
/// A definition is checked, and then its body with the definition bound. A
/// function introduction is checked against a function type by checking
/// its body against the output type, with the parameter bound. For every
/// other pair the type of the term is synthesised, and has to be equal to
/// the expected type.
pub open spec fn check(
    limit: nat,
    types: Seq<(StringId, ValueV)>,
    env: Seq<ValueV>,
    term: &surface::Term,
    expected: ValueV,
) -> Elaborated<TermV>
    decreases term, 2nat,
{
    match (term, expected) {
        (surface::Term::Let(name, _, _, body_expr), _) => match check_def(limit, types, env, term) {
            Ok((def_type, def_type_value, def_expr, def_expr_value)) => match check(
                limit,
                types.push((*name, def_type_value)),
                env.push(def_expr_value),
                body_expr,
                expected,
            ) {
                Ok(body_expr) => Ok(
                    TermV::Let(
                        *name,
                        Box::new(def_type),
                        Box::new(def_expr),
                        Box::new(body_expr),
                    ),
                ),
                Err(stop) => Err(stop),
            },
            Err(stop) => Err(stop),
        },
        (
            surface::Term::FunIntro(name, output_expr),
            ValueV::FunType(_, input_type, output_type),
        ) => if env.len() < model::max_len() {
            match model::apply(limit, output_type, model::fresh_var(env.len())) {
                Ok(output_type) => match check(
                    limit,
                    types.push((*name, *input_type)),
                    env.push(model::fresh_var(env.len())),
                    output_expr,
                    output_type,
                ) {
                    Ok(output_expr) => Ok(TermV::FunIntro(*name, Box::new(output_expr))),
                    Err(stop) => Err(stop),
                },
                Err(_) => Err(None),
            }
        } else {
            Err(None)
        },
        (_, _) => match synth(limit, types, env, term) {
            Ok((core_term, synth_type)) => match model::is_equal(
                limit,
                EnvLen(env.len() as u16),
                synth_type,
                expected,
            ) {
                Ok(true) => Ok(core_term),
                Ok(false) => Err(Some("error: type mismatch"@)),
                Err(_) => Err(None),
            },
            Err(stop) => Err(stop),
        },
    }
}

/// Synthesises the type of a surface term, and yields the core term with
/// the type.
pub open spec fn synth(
    limit: nat,
    types: Seq<(StringId, ValueV)>,
    env: Seq<ValueV>,
    term: &surface::Term,
) -> Elaborated<(TermV, ValueV)>
    decreases term, 1nat,
{
    match term {
        surface::Term::Var(var_name) => match lookup(types, *var_name, 0) {
            Some(i) => if i <= u16::MAX {
                Ok((TermV::Var(LocalVar(i as u16)), types[types.len() - 1 - i].1))
            } else {
                Err(Some("bug: local index out of range"@))
            },
            None => Err(Some("error: variable out of scope"@)),
        },
        surface::Term::Let(name, _, _, body_expr) => match check_def(limit, types, env, term) {
            Ok((def_type, def_type_value, def_expr, def_expr_value)) => match synth(
                limit,
                types.push((*name, def_type_value)),
                env.push(def_expr_value),
                body_expr,
            ) {
                Ok((body_expr, body_type)) => Ok(
                    (
                        TermV::Let(
                            *name,
                            Box::new(def_type),
                            Box::new(def_expr),
                            Box::new(body_expr),
                        ),
                        body_type,
                    ),
                ),
                Err(stop) => Err(stop),
            },
            Err(stop) => Err(stop),
        },
        surface::Term::Universe => Ok((TermV::Universe, ValueV::Universe)),
        surface::Term::FunType(name, input_type, output_type) => match check(
            limit,
            types,
            env,
            input_type,
            ValueV::Universe,
        ) {
            Ok(input_type) => match evaluated(limit, env, input_type) {
                Ok(input_type_value) => if env.len() < model::max_len() {
                    match check(
                        limit,
                        types.push((*name, input_type_value)),
                        env.push(model::fresh_var(env.len())),
                        output_type,
                        ValueV::Universe,
                    ) {
                        Ok(output_type) => Ok(
                            (
                                TermV::FunType(
                                    *name,
                                    Box::new(input_type),
                                    Box::new(output_type),
                                ),
                                ValueV::Universe,
                            ),
                        ),
                        Err(stop) => Err(stop),
                    }
                } else {
                    Err(None)
                },
                Err(stop) => Err(stop),
            },
            Err(stop) => Err(stop),
        },
        surface::Term::FunIntro(_, _) => Err(Some("error: ambiguous function introduction"@)),
        surface::Term::FunElim(head_expr, input_expr) => match synth(limit, types, env, head_expr) {
            Ok((head_expr, head_type)) => match head_type {
                ValueV::FunType(_, input_type, output_type) => match check(
                    limit,
                    types,
                    env,
                    input_expr,
                    *input_type,
                ) {
                    Ok(input_expr) => match evaluated(limit, env, input_expr) {
                        Ok(input_expr_value) => match model::apply(
                            limit,
                            output_type,
                            input_expr_value,
                        ) {
                            Ok(output_type) => Ok(
                                (
                                    TermV::FunElim(Box::new(head_expr), Box::new(input_expr)),
                                    output_type,
                                ),
                            ),
                            Err(_) => Err(None),
                        },
                        Err(stop) => Err(stop),
                    },
                    Err(stop) => Err(stop),
                },
                _ => Err(Some("error: expected a function type"@)),
            },
            Err(stop) => Err(stop),
        },
    }
}

/// Whether the messages after a step are those before it, with the message
/// that the step reported, if it reported one.
pub open spec fn reported(before: Seq<String>, after: Seq<String>, message: Option<Seq<char>>) -> bool {
    match message {
        Some(message) => after.len() == before.len() + 1 && after.subrange(
            0,
            before.len() as int,
        ) == before && after[before.len() as int]@ == message,
        None => after == before,
    }
}

/// Elaboration context.
pub struct Context<'arena> {
    /// Arena used for storing elaborated terms.
    pub arena: &'arena Arena<Term<'arena>>,
    /// Type environment.
    ///
    /// Name-type pairs will be added here.
    pub types: Vec<(StringId, Arc<Value<'arena>>)>,
    /// Value environment.
    ///
    /// The values stored in this environment correspond to the the types in
    /// the type environment.
    pub env: ValueEnv<'arena>,
    /// Diagnostic messages encountered during elaboration.
    pub messages: Vec<String>,
    /// The number of nested steps that an evaluation or a comparison may
    /// take.
    pub limit: usize,
}

impl<'arena> Context<'arena> {
    /// Whether the type environment and the value environment bind the
    /// same variables.
    pub open spec fn wf(&self) -> bool {
        self.types@.len() == self.env@.len()
    }

    /// The models of the names and types in scope.
    pub open spec fn types(&self) -> Seq<(StringId, ValueV)> {
        types_view(self.types@)
    }

    /// The models of the values in scope.
    pub open spec fn values(&self) -> Seq<ValueV> {
        env_view(self.env@)
    }

    /// Whether another state of the context has the same bindings, arena
    /// and limit.
    pub open spec fn same_scope(&self, other: &Context<'arena>) -> bool {
        self.arena == other.arena && self.types@ == other.types@ && self.env@ == other.env@
            && self.limit == other.limit
    }

    /// What checking a term in this context yields.
    pub open spec fn spec_check(&self, term: &surface::Term, expected: ValueV) -> Elaborated<
        TermV,
    > {
        check(self.limit as nat, self.types(), self.values(), term, expected)
    }

    /// What synthesising the type of a term in this context yields.
    pub open spec fn spec_synth(&self, term: &surface::Term) -> Elaborated<(TermV, ValueV)> {
        synth(self.limit as nat, self.types(), self.values(), term)
    }

    /// Construct a new elaboration context, backed by the supplied arena.
    /// Each evaluation and comparison that elaboration needs may take
    /// `limit` nested steps.
    pub fn new(arena: &'arena Arena<Term<'arena>>, limit: usize) -> (context: Context<'arena>)
        ensures
            context.wf(),
            context.arena == arena,
            context.limit == limit,
            context.types@.len() == 0,
            context.env@.len() == 0,
            context.messages@.len() == 0,
    {
        Context { arena, types: Vec::new(), env: ValueEnv::new(), messages: Vec::new(), limit }
    }

    fn push_entry(&mut self, name: StringId, value: Arc<Value<'arena>>, ty: Arc<Value<'arena>>)
        requires
            old(self).wf(),
            old(self).env@.len() < model::max_len(),
        ensures
            final(self).wf(),
            final(self).arena == old(self).arena,
            final(self).limit == old(self).limit,
            final(self).messages@ == old(self).messages@,
            final(self).types@ == old(self).types@.push((name, ty)),
            final(self).env@ == old(self).env@.push(value),
            final(self).types() == old(self).types().push((name, ty@)),
            final(self).values() == old(self).values().push(value@),
    {
        self.types.push((name, ty));
        self.env.push_entry(value);
        assert(self.types() =~= old(self).types().push((name, ty@)));
        assert(self.values() =~= old(self).values().push(value@));
    }

    fn push_param(&mut self, name: StringId, ty: Arc<Value<'arena>>) -> (value: Arc<Value<'arena>>)
        requires
            old(self).wf(),
            old(self).env@.len() < model::max_len(),
        ensures
            value@ == model::fresh_var(old(self).values().len()),
            final(self).wf(),
            final(self).arena == old(self).arena,
            final(self).limit == old(self).limit,
            final(self).messages@ == old(self).messages@,
            final(self).types@ == old(self).types@.push((name, ty)),
            final(self).env@ == old(self).env@.push(value),
            final(self).types() == old(self).types().push((name, ty@)),
            final(self).values() == old(self).values().push(value@),
    {
        let value = fresh_var(self.env.len());
        self.push_entry(name, share(&value), ty);
        value
    }

    fn pop_entry(&mut self)
        requires
            old(self).wf(),
            old(self).env@.len() > 0,
        ensures
            final(self).wf(),
            final(self).arena == old(self).arena,
            final(self).limit == old(self).limit,
            final(self).messages@ == old(self).messages@,
            final(self).types@ == old(self).types@.drop_last(),
            final(self).env@ == old(self).env@.drop_last(),
    {
        let _ = self.types.pop();
        self.env.pop_entry();
    }

    /// Records a message, and yields no result.
    fn report<T>(&mut self, message: &str) -> (result: Option<T>)
        ensures
            result is None,
            final(self).same_scope(old(self)),
            reported(old(self).messages@, final(self).messages@, Some(message@)),
    {
        self.messages.push(message.to_owned());
        assert(self.messages@.subrange(0, old(self).messages@.len() as int) =~= old(
            self,
        ).messages@);
        None
    }

    /// Normalises a term in the context. Nothing comes back where the term
    /// has no normal form within the limit.
    pub fn normalize<'out_arena>(
        &mut self,
        arena: &'out_arena Arena<Term<'out_arena>>,
        term: &Term<'arena>,
    ) -> (result: Option<Term<'out_arena>>)
        ensures
            final(self).same_scope(old(self)),
            final(self).messages@ == old(self).messages@,
            match model::normalise(old(self).limit as nat, old(self).values(), term@) {
                Ok(normal) => result matches Some(found) && found@ == normal,
                Err(_) => result is None,
            },
    {
        match semantics::normalise(arena, &mut self.env, term, self.limit) {
            Ok(term) => Some(term),
            Err(_) => None,
        }
    }

    /// Evaluates a term in the context. Nothing comes back where the term
    /// has no value within the limit.
    pub fn eval(&mut self, term: &Term<'arena>) -> (result: Option<Arc<Value<'arena>>>)
        ensures
            final(self).same_scope(old(self)),
            final(self).messages@ == old(self).messages@,
            match evaluated(old(self).limit as nat, old(self).values(), term@) {
                Ok(value) => result matches Some(found) && found@ == value,
                Err(_) => result is None,
            },
    {
        match semantics::eval(&mut self.env, term, self.limit) {
            Ok(value) => Some(value),
            Err(_) => None,
        }
    }

    /// Compares two values in the context. Nothing comes back where the
    /// comparison does not end within the limit.
    pub fn is_equal(&mut self, value0: &Arc<Value<'arena>>, value1: &Arc<Value<'arena>>) -> (result:
        Option<bool>)
        ensures
            final(self).same_scope(old(self)),
            final(self).messages@ == old(self).messages@,
            match model::is_equal(
                old(self).limit as nat,
                EnvLen(old(self).values().len() as u16),
                value0@,
                value1@,
            ) {
                Ok(equal) => result == Some(equal),
                Err(_) => result is None,
            },
    {
        let env_len = self.env.len();
        assert(env_len == EnvLen(self.values().len() as u16));
        match semantics::is_equal(env_len, value0, value1, self.limit) {
            Ok(equal) => Some(equal),
            Err(_) => None,
        }
    }

    /// The position of the most recent binding of a name, counted from
    /// the most recent binding, and its type.
    fn lookup(&self, var_name: StringId) -> (found: Option<(usize, Arc<Value<'arena>>)>)
        ensures
            match found {
                Some((i, ty)) => lookup(self.types(), var_name, 0) == Some(i as int) && i
                    < self.types@.len() && ty@ == self.types()[self.types().len() - 1 - i].1,
                None => lookup(self.types(), var_name, 0) is None,
            },
    {
        let len = self.types.len();
        let mut i: usize = 0;
        while i < len
            invariant
                len == self.types@.len(),
                lookup(self.types(), var_name, 0) == lookup(self.types(), var_name, i as int),
            decreases len - i,
        {
            let entry = &self.types[len - 1 - i];
            if entry.0 == var_name {
                return Some((i, share(&entry.1)));
            }
            i = i + 1;
        }
        None
    }

    /// The elaboration of the type and the expression of a definition.
    fn check_def(
        &mut self,
        surface_term: surface::TermRef<'_>,
    ) -> (result: Option<
        (Term<'arena>, Arc<Value<'arena>>, Term<'arena>, Arc<Value<'arena>>),
    >)
        requires
            old(self).wf(),
        ensures
            final(self).wf(),
            final(self).same_scope(old(self)),
            match check_def(
                old(self).limit as nat,
                old(self).types(),
                old(self).values(),
                surface_term,
            ) {
                Ok((def_type, def_type_value, def_expr, def_expr_value)) => result matches Some(
                    found,
                ) && found.0@ == def_type && found.1@ == def_type_value && found.2@ == def_expr
                    && found.3@ == def_expr_value && old(self).env@.len() < model::max_len()
                    && final(self).messages@ == old(self).messages@,
                Err(message) => result is None && reported(
                    old(self).messages@,
                    final(self).messages@,
                    message,
                ),
            },
        decreases surface_term, 0nat,
    {
        match surface_term {
            surface::Term::Let(_, def_type, def_expr, _) => {
                let universe = Arc::new(Value::Universe);
                let def_type = match self.check(def_type, &universe) {
                    Some(def_type) => def_type,
                    None => {
                        return None;
                    },
                };
                let def_type_value = match self.eval(&def_type) {
                    Some(def_type_value) => def_type_value,
                    None => {
                        return None;
                    },
                };
                let def_expr = match self.check(def_expr, &def_type_value) {
                    Some(def_expr) => def_expr,
                    None => {
                        return None;
                    },
                };
                let def_expr_value = match self.eval(&def_expr) {
                    Some(def_expr_value) => def_expr_value,
                    None => {
                        return None;
                    },
                };
                if self.env.is_full() {
                    return None;
                }
                Some((def_type, def_type_value, def_expr, def_expr_value))
            },
            _ => None,
        }
    }

    /// Check that a surface term conforms to the given type.
    ///
    /// Returns the elaborated term in the core language.
    pub fn check(
        &mut self,
        surface_term: surface::TermRef<'_>,
        expected_type: &Arc<Value<'arena>>,
    ) -> (result: Option<Term<'arena>>)
        requires
            old(self).wf(),
        ensures
            final(self).wf(),
            final(self).same_scope(old(self)),
            match old(self).spec_check(surface_term, expected_type@) {
                Ok(term) => result matches Some(found) && found@ == term && final(self).messages@
                    == old(self).messages@,
                Err(message) => result is None && reported(
                    old(self).messages@,
                    final(self).messages@,
                    message,
                ),
            },
        decreases surface_term, 2nat,
    {
        match (surface_term, &**expected_type) {
            (surface::Term::Let(name, _, _, body_expr), _) => {
                let (def_type, def_type_value, def_expr, def_expr_value) = match self.check_def(
                    surface_term,
                ) {
                    Some(def) => def,
                    None => {
                        return None;
                    },
                };
                let ghost types = self.types@;
                let ghost env = self.env@;
                self.push_entry(*name, def_expr_value, def_type_value);
                let body_expr = self.check(body_expr, expected_type);
                self.pop_entry();
                assert(self.types@ =~= types);
                assert(self.env@ =~= env);
                match body_expr {
                    Some(body_expr) => Some(
                        Term::Let(
                            *name,
                            place(self.arena, def_type),
                            place(self.arena, def_expr),
                            place(self.arena, body_expr),
                        ),
                    ),
                    None => None,
                }
            },
            (surface::Term::FunIntro(name, output_expr), Value::FunType(_, input_type, output_type)) => {
                assert(expected_type@ matches ValueV::FunType(_, input, output) && *input
                    == input_type@ && output == output_type@);
                if self.env.is_full() {
                    return None;
                }
                let ghost types = self.types@;
                let ghost env = self.env@;
                let var = fresh_var(self.env.len());
                let output_type = match output_type.apply(var, self.limit) {
                    Ok(output_type) => output_type,
                    Err(_) => {
                        return None;
                    },
                };
                let _ = self.push_param(*name, share(input_type));
                let output_expr = self.check(output_expr, &output_type);
                self.pop_entry();
                assert(self.types@ =~= types);
                assert(self.env@ =~= env);
                match output_expr {
                    Some(output_expr) => Some(
                        Term::FunIntro(*name, place(self.arena, output_expr)),
                    ),
                    None => None,
                }
            },
            (_, _) => {
                let (core_term, synth_type) = match self.synth(surface_term) {
                    Some(synthesised) => synthesised,
                    None => {
                        return None;
                    },
                };
                match self.is_equal(&synth_type, expected_type) {
                    Some(true) => Some(core_term),
                    Some(false) => self.report("error: type mismatch"),
                    None => None,
                }
            },
        }
    }

    /// Synthesize the type of the given surface term.
    ///
    /// Returns the elaborated term in the core language and its type.
    pub fn synth(&mut self, surface_term: surface::TermRef<'_>) -> (result: Option<
        (Term<'arena>, Arc<Value<'arena>>),
    >)
        requires
            old(self).wf(),
        ensures
            final(self).wf(),
            final(self).same_scope(old(self)),
            match old(self).spec_synth(surface_term) {
                Ok((term, ty)) => result matches Some(found) && found.0@ == term && found.1@ == ty
                    && final(self).messages@ == old(self).messages@,
                Err(message) => result is None && reported(
                    old(self).messages@,
                    final(self).messages@,
                    message,
                ),
            },
        decreases surface_term, 1nat,
    {
        match surface_term {
            surface::Term::Var(var_name) => match self.lookup(*var_name) {
                Some((i, ty)) => {
                    if i <= u16::MAX as usize {
                        Some((Term::Var(LocalVar(i as u16)), ty))
                    } else {
                        self.report("bug: local index out of range")
                    }
                },
                None => self.report("error: variable out of scope"),
            },
            surface::Term::Let(name, _, _, body_expr) => {
                let (def_type, def_type_value, def_expr, def_expr_value) = match self.check_def(
                    surface_term,
                ) {
                    Some(def) => def,
                    None => {
                        return None;
                    },
                };
                let ghost types = self.types@;
                let ghost env = self.env@;
                self.push_entry(*name, def_expr_value, def_type_value);
                let body = self.synth(body_expr);
                self.pop_entry();
                assert(self.types@ =~= types);
                assert(self.env@ =~= env);
                match body {
                    Some((body_expr, body_type)) => Some(
                        (
                            Term::Let(
                                *name,
                                place(self.arena, def_type),
                                place(self.arena, def_expr),
                                place(self.arena, body_expr),
                            ),
                            body_type,
                        ),
                    ),
                    None => None,
                }
            },
            surface::Term::Universe => Some((Term::Universe, Arc::new(Value::Universe))),
            surface::Term::FunType(name, input_type, output_type) => {
                let universe = Arc::new(Value::Universe);
                let input_type = match self.check(input_type, &universe) {
                    Some(input_type) => input_type,
                    None => {
                        return None;
                    },
                };
                let input_type_value = match self.eval(&input_type) {
                    Some(input_type_value) => input_type_value,
                    None => {
                        return None;
                    },
                };
                if self.env.is_full() {
                    return None;
                }
                let ghost types = self.types@;
                let ghost env = self.env@;
                let _ = self.push_param(*name, input_type_value);
                let output_type = self.check(output_type, &universe);
                self.pop_entry();
                assert(self.types@ =~= types);
                assert(self.env@ =~= env);
                match output_type {
                    Some(output_type) => Some(
                        (
                            Term::FunType(
                                *name,
                                place(self.arena, input_type),
                                place(self.arena, output_type),
                            ),
                            Arc::new(Value::Universe),
                        ),
                    ),
                    None => None,
                }
            },
            surface::Term::FunIntro(_, _) => self.report(
                "error: ambiguous function introduction",
            ),
            surface::Term::FunElim(head_expr, input_expr) => {
                let (head_expr, head_type) = match self.synth(head_expr) {
                    Some(head) => head,
                    None => {
                        return None;
                    },
                };
                match &*head_type {
                    Value::FunType(_, input_type, output_type) => {
                        assert(head_type@ matches ValueV::FunType(_, input, output) && *input
                            == input_type@ && output == output_type@);
                        let input_expr = match self.check(input_expr, input_type) {
                            Some(input_expr) => input_expr,
                            None => {
                                return None;
                            },
                        };
                        let input_expr_value = match self.eval(&input_expr) {
                            Some(input_expr_value) => input_expr_value,
                            None => {
                                return None;
                            },
                        };
                        match output_type.apply(input_expr_value, self.limit) {
                            Ok(output_type) => Some(
                                (
                                    Term::FunElim(
                                        place(self.arena, head_expr),
                                        place(self.arena, input_expr),
                                    ),
                                    output_type,
                                ),
                            ),
                            Err(_) => None,
                        }
                    },
                    _ => self.report("error: expected a function type"),
                }
            },
        }
    }
}

} // verus!
