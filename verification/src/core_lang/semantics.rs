//! The operational semantics of the core language, by normalisation by
//! evaluation.

use crate::core_lang::model;
use crate::core_lang::model::{
    ArcValueV, BranchesV, ClosureV, ElimV, TablesV, TelescopeV, ValueV,
};
pub use crate::core_lang::model::{Error, Head, Stop};
use crate::core_lang::{branches_view, terms_view, Const, LocalInfo, Prim, Term};
use crate::env::{Level, SharedEnv, SliceEnv};
use crate::shared::share;
use crate::source::{Span, Spanned};
use crate::symbol::StringId;
use std::sync::Arc;
use vstd::prelude::*;

verus! {

/// Reference counted values, with the span they came from. Values are
/// shared to avoid copies during evaluation.
pub type ArcValue<'arena> = Spanned<Arc<Value<'arena>>>;

/// Values in weak head normal form, with bindings converted to closures.
#[derive(Clone)]
pub enum Value<'arena> {
    /// A value whose computation is blocked on its head, with the spine of
    /// eliminations that wait for it.
    Stuck(Head, Vec<Elim<'arena>>),
    /// Universes.
    Universe,
    /// Dependent function types.
    FunType(Option<StringId>, ArcValue<'arena>, Closure<'arena>),
    /// Function literals.
    FunLit(Option<StringId>, Closure<'arena>),
    /// Record types.
    RecordType(&'arena [StringId], Telescope<'arena>),
    /// Record literals.
    RecordLit(&'arena [StringId], Vec<ArcValue<'arena>>),
    /// Array literals.
    ArrayLit(Vec<ArcValue<'arena>>),
    /// Record formats, consisting of a list of dependent formats.
    FormatRecord(&'arena [StringId], Telescope<'arena>),
    /// Conditional format, consisting of a format and predicate.
    FormatCond(StringId, ArcValue<'arena>, Closure<'arena>),
    /// Overlap formats, consisting of a list of dependent formats that
    /// overlap in memory.
    FormatOverlap(&'arena [StringId], Telescope<'arena>),
    /// Constant literals.
    ConstLit(Const),
}

/// A pending elimination, to be reduced if the head of a stuck value
/// becomes known.
pub enum Elim<'arena> {
    /// Function applications.
    FunApp(ArcValue<'arena>),
    /// Record projections.
    RecordProj(StringId),
    /// Match on a constant.
    ConstMatch(Branches<'arena>),
}

/// A closure is a term that can later be instantiated with a value.
pub struct Closure<'arena> {
    /// The values of the bindings around the term. One more entry is pushed
    /// before the term is evaluated.
    pub local_exprs: SharedEnv<ArcValue<'arena>>,
    /// The term that is closed over.
    pub term: &'arena Term<'arena>,
}

/// A series of terms where each term might depend on previous terms.
pub struct Telescope<'arena> {
    /// The values of the bindings around the terms.
    pub local_exprs: SharedEnv<ArcValue<'arena>>,
    /// Whether each term stands for the representation of the format that it
    /// describes.
    pub apply_repr: bool,
    /// The terms in the telescope.
    pub terms: &'arena [Term<'arena>],
}

/// The branches of a single-level match on a constant.
pub struct Branches<'arena> {
    pub local_exprs: SharedEnv<ArcValue<'arena>>,
    pub pattern_branches: &'arena [(Const, Term<'arena>)],
    pub default_expr: Option<&'arena Term<'arena>>,
}

/// The model of a value.
pub open spec fn value_view(value: &Value) -> ValueV
    decreases value,
{
    match value {
        Value::Stuck(head, spine) => ValueV::Stuck(*head, spine_view(spine@)),
        Value::Universe => ValueV::Universe,
        Value::FunType(name, param_type, body_type) => ValueV::FunType(
            *name,
            Box::new(arc_value_view(param_type)),
            closure_view(body_type),
        ),
        Value::FunLit(name, body_expr) => ValueV::FunLit(*name, closure_view(body_expr)),
        Value::RecordType(labels, types) => ValueV::RecordType(labels@, telescope_view(types)),
        Value::RecordLit(labels, exprs) => ValueV::RecordLit(labels@, values_view(exprs@)),
        Value::ArrayLit(exprs) => ValueV::ArrayLit(values_view(exprs@)),
        Value::FormatRecord(labels, formats) => ValueV::FormatRecord(
            labels@,
            telescope_view(formats),
        ),
        Value::FormatCond(name, format, cond) => ValueV::FormatCond(
            *name,
            Box::new(arc_value_view(format)),
            closure_view(cond),
        ),
        Value::FormatOverlap(labels, formats) => ValueV::FormatOverlap(
            labels@,
            telescope_view(formats),
        ),
        Value::ConstLit(constant) => ValueV::ConstLit(*constant),
    }
}

/// The model of a value with its span.
pub open spec fn arc_value_view(value: &ArcValue) -> ArcValueV
    decreases value,
{
    ArcValueV { span: value.span, value: value_view(&*value.inner) }
}

/// The model of an elimination.
pub open spec fn elim_view(elim: &Elim) -> ElimV
    decreases elim,
{
    match elim {
        Elim::FunApp(arg) => ElimV::FunApp(arc_value_view(arg)),
        Elim::RecordProj(label) => ElimV::RecordProj(*label),
        Elim::ConstMatch(branches) => ElimV::ConstMatch(match_view(branches)),
    }
}

/// The models of a sequence of values.
pub open spec fn values_view(values: Seq<ArcValue>) -> Seq<ArcValueV>
    decreases values,
{
    Seq::new(
        values.len(),
        |i: int|
            if 0 <= i < values.len() {
                arc_value_view(&values[i])
            } else {
                arbitrary()
            },
    )
}

/// The models of the eliminations of a spine.
pub open spec fn spine_view(spine: Seq<Elim>) -> Seq<ElimV>
    decreases spine,
{
    Seq::new(
        spine.len(),
        |i: int|
            if 0 <= i < spine.len() {
                elim_view(&spine[i])
            } else {
                arbitrary()
            },
    )
}

/// The models of the values in an environment, the oldest first.
pub open spec fn env_view(env: &SharedEnv<ArcValue>) -> Seq<ArcValueV>
    decreases env,
{
    Seq::new(
        env@.len(),
        |i: int|
            if 0 <= i < env@.len() {
                proof {
                    env.lemma_entry_decreases(i);
                }
                arc_value_view(&env@[i])
            } else {
                arbitrary()
            },
    )
}

/// The model of a closure.
pub open spec fn closure_view(closure: &Closure) -> ClosureV
    decreases closure,
{
    ClosureV { local_exprs: env_view(&closure.local_exprs), term: closure.term@ }
}

/// The model of a telescope.
pub open spec fn telescope_view(telescope: &Telescope) -> TelescopeV
    decreases telescope,
{
    TelescopeV {
        local_exprs: env_view(&telescope.local_exprs),
        apply_repr: telescope.apply_repr,
        terms: terms_view(telescope.terms@),
    }
}

/// The model of the branches of a match.
pub open spec fn match_view(branches: &Branches) -> BranchesV
    decreases branches,
{
    BranchesV {
        local_exprs: env_view(&branches.local_exprs),
        pattern_branches: branches_view(branches.pattern_branches@),
        default_expr: match branches.default_expr {
            Some(expr) => Some(expr@),
            None => None,
        },
    }
}

/// The model of an environment is made of the models of its entries.
pub proof fn lemma_env_view(env: &SharedEnv<ArcValue>)
    ensures
        env_view(env) == values_view(env@),
{
    assert(env_view(env) =~= values_view(env@));
}

impl<'arena> View for Value<'arena> {
    type V = ValueV;

    open spec fn view(&self) -> ValueV {
        value_view(self)
    }
}

impl<'arena> View for Spanned<Arc<Value<'arena>>> {
    type V = ArcValueV;

    open spec fn view(&self) -> ArcValueV {
        arc_value_view(self)
    }
}

impl<'arena> View for Elim<'arena> {
    type V = ElimV;

    open spec fn view(&self) -> ElimV {
        elim_view(self)
    }
}

impl<'arena> View for Closure<'arena> {
    type V = ClosureV;

    open spec fn view(&self) -> ClosureV {
        closure_view(self)
    }
}

impl<'arena> View for Telescope<'arena> {
    type V = TelescopeV;

    open spec fn view(&self) -> TelescopeV {
        telescope_view(self)
    }
}

impl<'arena> View for Branches<'arena> {
    type V = BranchesV;

    open spec fn view(&self) -> BranchesV {
        match_view(self)
    }
}

/// The models of the solutions of the metavariables.
pub open spec fn metas_view(metas: Seq<Option<ArcValue>>) -> Seq<Option<ArcValueV>> {
    Seq::new(
        metas.len(),
        |i: int|
            match metas[i] {
                Some(value) => Some(value@),
                None => None,
            },
    )
}

/// The model of the result of a computation that yields a value.
pub open spec fn value_result(result: Result<ArcValue, Stop>) -> Result<ArcValueV, Stop> {
    match result {
        Ok(value) => Ok(value@),
        Err(stop) => Err(stop),
    }
}

/// The model of the result of a computation that yields a value or nothing.
pub open spec fn step_result(result: Result<Option<ArcValue>, Stop>) -> Result<
    Option<ArcValueV>,
    Stop,
> {
    match result {
        Ok(Some(value)) => Ok(Some(value@)),
        Ok(None) => Ok(None),
        Err(stop) => Err(stop),
    }
}

/// Another handle to a value.
pub fn clone_value<'arena>(value: &ArcValue<'arena>) -> (copy: ArcValue<'arena>)
    ensures
        copy == *value,
{
    Spanned { span: value.span, inner: share(&value.inner) }
}

impl<'arena> Clone for Closure<'arena> {
    fn clone(&self) -> (copy: Closure<'arena>)
        ensures
            copy@ == self@,
    {
        Closure { local_exprs: self.local_exprs.clone(), term: self.term }
    }
}

impl<'arena> Clone for Telescope<'arena> {
    fn clone(&self) -> (copy: Telescope<'arena>)
        ensures
            copy@ == self@,
    {
        Telescope {
            local_exprs: self.local_exprs.clone(),
            apply_repr: self.apply_repr,
            terms: self.terms,
        }
    }
}

impl<'arena> Clone for Branches<'arena> {
    fn clone(&self) -> (copy: Branches<'arena>)
        ensures
            copy@ == self@,
    {
        Branches {
            local_exprs: self.local_exprs.clone(),
            pattern_branches: self.pattern_branches,
            default_expr: self.default_expr,
        }
    }
}

impl<'arena> Clone for Elim<'arena> {
    fn clone(&self) -> (copy: Elim<'arena>)
        ensures
            copy@ == self@,
    {
        match self {
            Elim::FunApp(arg) => Elim::FunApp(clone_value(arg)),
            Elim::RecordProj(label) => Elim::RecordProj(*label),
            Elim::ConstMatch(branches) => Elim::ConstMatch(branches.clone()),
        }
    }
}

/// A copy of a spine that shares its values.
pub fn clone_spine<'arena>(spine: &Vec<Elim<'arena>>) -> (copy: Vec<Elim<'arena>>)
    ensures
        spine_view(copy@) == spine_view(spine@),
{
    let mut copy: Vec<Elim<'arena>> = Vec::new();
    let mut i: usize = 0;
    while i < spine.len()
        invariant
            i <= spine.len(),
            copy.len() == i,
            forall|k: int| 0 <= k < i ==> copy[k]@ == spine[k]@,
        decreases spine.len() - i,
    {
        copy.push(spine[i].clone());
        i = i + 1;
    }
    assert(spine_view(copy@) =~= spine_view(spine@));
    copy
}

impl<'arena> Value<'arena> {
    /// A primitive applied to the given parameters.
    pub fn prim(prim: Prim, params: Vec<ArcValue<'arena>>) -> (value: Value<'arena>)
        ensures
            value@ == model::prim_value(prim, values_view(params@)),
    {
        let mut spine: Vec<Elim<'arena>> = Vec::new();
        let mut i: usize = 0;
        while i < params.len()
            invariant
                i <= params.len(),
                spine.len() == i,
                forall|k: int| 0 <= k < i ==> spine[k]@ == ElimV::FunApp(params[k]@),
            decreases params.len() - i,
        {
            spine.push(Elim::FunApp(clone_value(&params[i])));
            i = i + 1;
        }
        assert(spine_view(spine@) =~= Seq::new(
            values_view(params@).len(),
            |i: int| ElimV::FunApp(values_view(params@)[i]),
        ));
        Value::Stuck(Head::Prim(prim), spine)
    }

    /// A variable that refers to the local binder at `level`.
    pub fn local_var(level: Level) -> (value: Value<'arena>)
        ensures
            value@ == model::local_var(level),
    {
        let value = Value::Stuck(Head::LocalVar(level), Vec::new());
        assert(spine_view(Seq::<Elim>::empty()) =~= Seq::<ElimV>::empty());
        value
    }

    /// A metavariable that has no solution.
    pub fn meta_var(level: Level) -> (value: Value<'arena>)
        ensures
            value@ == model::meta_var(level),
    {
        let value = Value::Stuck(Head::MetaVar(level), Vec::new());
        assert(spine_view(Seq::<Elim>::empty()) =~= Seq::<ElimV>::empty());
        value
    }

    /// The primitive at the head of the value and its spine, where the
    /// value is stuck on a primitive.
    pub fn match_prim_spine(&self) -> (parts: Option<(Prim, &Vec<Elim<'arena>>)>)
        ensures
            match parts {
                Some((prim, spine)) => *self == Value::Stuck(Head::Prim(prim), *spine),
                None => !(self@ matches ValueV::Stuck(Head::Prim(_), _)),
            },
    {
        match self {
            Value::Stuck(Head::Prim(prim), spine) => Some((*prim, spine)),
            _ => None,
        }
    }
}

impl<'arena> Closure<'arena> {
    /// Construct a closure.
    pub fn new(local_exprs: SharedEnv<ArcValue<'arena>>, term: &'arena Term<'arena>) -> (closure:
        Closure<'arena>)
        ensures
            closure == (Closure { local_exprs, term }),
    {
        Closure { local_exprs, term }
    }

    /// The span of the term that is closed over.
    pub fn span(&self) -> (span: Span)
        ensures
            span == self@.term.span(),
    {
        self.term.span()
    }
}

impl<'arena> Telescope<'arena> {
    /// Construct a telescope.
    pub fn new(local_exprs: SharedEnv<ArcValue<'arena>>, terms: &'arena [Term<'arena>]) -> (telescope:
        Telescope<'arena>)
        ensures
            telescope == (Telescope { local_exprs, apply_repr: false, terms }),
    {
        Telescope { local_exprs, apply_repr: false, terms }
    }

    /// The telescope of the representations of the formats in this one.
    pub fn apply_repr(self) -> (telescope: Telescope<'arena>)
        ensures
            telescope == (Telescope {
                local_exprs: self.local_exprs,
                apply_repr: true,
                terms: self.terms,
            }),
    {
        Telescope { local_exprs: self.local_exprs, apply_repr: true, terms: self.terms }
    }

    /// The number of terms in the telescope.
    pub fn len(&self) -> (len: usize)
        ensures
            len == self@.terms.len(),
    {
        self.terms.len()
    }
}

impl<'arena> Branches<'arena> {
    /// Construct a single-level pattern match.
    pub fn new(
        local_exprs: SharedEnv<ArcValue<'arena>>,
        pattern_branches: &'arena [(Const, Term<'arena>)],
        default_expr: Option<&'arena Term<'arena>>,
    ) -> (branches: Branches<'arena>)
        ensures
            branches == (Branches { local_exprs, pattern_branches, default_expr }),
    {
        Branches { local_exprs, pattern_branches, default_expr }
    }

    /// The number of pattern branches.
    pub fn num_patterns(&self) -> (len: usize)
        ensures
            len == self@.pattern_branches.len(),
    {
        self.pattern_branches.len()
    }
}

impl Error {
    pub fn description(&self) -> (description: &'static str)
        ensures
            description@ == self.spec_description(),
    {
        match self {
            Error::UnboundItemVar => "unbound item variable",
            Error::UnboundLocalVar => "unbound local variable",
            Error::UnboundMetaVar => "unbound metavariable",
            Error::InvalidFunctionApp => "invalid function application",
            Error::InvalidRecordProj => "invalid record projection",
            Error::InvalidConstMatch => "invalid constant match",
            Error::InvalidFormatRepr => "invalid format repr",
            Error::MissingConstDefault => "missing default expression",
        }
    }

    /// What the error says, in words.
    pub open spec fn spec_description(self) -> Seq<char> {
        match self {
            Error::UnboundItemVar => "unbound item variable"@,
            Error::UnboundLocalVar => "unbound local variable"@,
            Error::UnboundMetaVar => "unbound metavariable"@,
            Error::InvalidFunctionApp => "invalid function application"@,
            Error::InvalidRecordProj => "invalid record projection"@,
            Error::InvalidConstMatch => "invalid constant match"@,
            Error::InvalidFormatRepr => "invalid format repr"@,
            Error::MissingConstDefault => "missing default expression"@,
        }
    }
}

} // verus!

verus! {

/// Elimination environment.
///
/// Contains enough state to run computations, but does not contain a local
/// environment that would be needed for full evaluation.
#[derive(Clone, Copy)]
pub struct ElimEnv<'arena, 'env> {
    pub item_exprs: &'env SliceEnv<ArcValue<'arena>>,
    pub meta_exprs: &'env SliceEnv<Option<ArcValue<'arena>>>,
}

impl<'arena, 'env> View for ElimEnv<'arena, 'env> {
    type V = TablesV;

    open spec fn view(&self) -> TablesV {
        TablesV { items: values_view(self.item_exprs@), metas: metas_view(self.meta_exprs@) }
    }
}

/// Evaluation environment.
///
/// Like the [`ElimEnv`], this allows for the running of computations, but
/// also maintains a local environment, allowing for evaluation.
pub struct EvalEnv<'arena, 'env> {
    pub elim_env: ElimEnv<'arena, 'env>,
    pub local_exprs: &'env mut SharedEnv<ArcValue<'arena>>,
}

impl<'arena, 'env> EvalEnv<'arena, 'env> {
    /// The model of the local environment.
    pub open spec fn locals(&self) -> Seq<ArcValueV> {
        values_view(self.local_exprs@)
    }

    pub fn new(
        elim_env: ElimEnv<'arena, 'env>,
        local_exprs: &'env mut SharedEnv<ArcValue<'arena>>,
    ) -> (env: EvalEnv<'arena, 'env>)
        ensures
            env.elim_env == elim_env,
            *env.local_exprs == *old(local_exprs),
            *final(env.local_exprs) == *final(local_exprs),
    {
        EvalEnv { elim_env, local_exprs }
    }

    /// Evaluate a term into a value, in at most `fuel` nested steps.
    pub fn eval(&mut self, term: &Term<'arena>, fuel: usize) -> (result: Result<
        ArcValue<'arena>,
        Stop,
    >)
        ensures
            final(self).elim_env == old(self).elim_env,
            final(self).local_exprs@ == old(self).local_exprs@,
            value_result(result) == model::eval(
                fuel as nat,
                old(self).elim_env@,
                old(self).locals(),
                term@,
            ),
        decreases fuel, 0nat,
    {
        if fuel == 0 {
            return Err(Stop::Limit);
        }
        let f = fuel - 1;
        match term {
            Term::ItemVar(span, var) => match self.elim_env.item_exprs.get_level(*var) {
                Some(value) => Ok(Spanned::new(*span, share(&value.inner))),
                None => Err(Stop::Error(Error::UnboundItemVar)),
            },
            Term::LocalVar(span, var) => match self.local_exprs.get_index(*var) {
                Some(value) => Ok(Spanned::new(*span, share(&value.inner))),
                None => Err(Stop::Error(Error::UnboundLocalVar)),
            },
            Term::MetaVar(span, var) => self.elim_env.meta_value(*span, *var),
            Term::InsertedMeta(span, var, infos) => match self.elim_env.meta_value(*span, *var) {
                Ok(head) => self.apply_local_infos(head, infos, f),
                Err(stop) => Err(stop),
            },
            Term::Ann(span, expr, _) => match self.eval(expr, f) {
                Ok(value) => Ok(Spanned::merge(*span, value)),
                Err(stop) => Err(stop),
            },
            Term::Let(span, _, _, def_expr, body_expr) => self.eval_let(
                *span,
                def_expr,
                body_expr,
                f,
            ),
            Term::Universe(span) => Ok(Spanned::new(*span, Arc::new(Value::Universe))),
            Term::FunType(span, name, param_type, body_type) => match self.eval(param_type, f) {
                Ok(param) => {
                    let body = self.close(body_type);
                    Ok(Spanned::new(*span, Arc::new(Value::FunType(*name, param, body))))
                },
                Err(stop) => Err(stop),
            },
            Term::FunLit(span, name, body_expr) => {
                let body = self.close(body_expr);
                Ok(Spanned::new(*span, Arc::new(Value::FunLit(*name, body))))
            },
            Term::FunApp(span, head_expr, arg_expr) => self.eval_fun_app(
                *span,
                head_expr,
                arg_expr,
                f,
            ),
            Term::RecordType(span, labels, types) => {
                let types = self.telescope(types);
                Ok(Spanned::new(*span, Arc::new(Value::RecordType(labels, types))))
            },
            Term::RecordLit(span, labels, exprs) => match self.eval_all(exprs, f) {
                Ok(values) => Ok(Spanned::new(*span, Arc::new(Value::RecordLit(labels, values)))),
                Err(stop) => Err(stop),
            },
            Term::RecordProj(span, head_expr, label) => match self.eval(head_expr, f) {
                Ok(head) => match self.elim_env.record_proj(head, *label) {
                    Ok(value) => Ok(Spanned::merge(*span, value)),
                    Err(stop) => Err(stop),
                },
                Err(stop) => Err(stop),
            },
            Term::ArrayLit(span, exprs) => match self.eval_all(exprs, f) {
                Ok(values) => Ok(Spanned::new(*span, Arc::new(Value::ArrayLit(values)))),
                Err(stop) => Err(stop),
            },
            Term::FormatRecord(span, labels, formats) => {
                let formats = self.telescope(formats);
                Ok(Spanned::new(*span, Arc::new(Value::FormatRecord(labels, formats))))
            },
            Term::FormatCond(span, name, format, cond) => match self.eval(format, f) {
                Ok(format) => {
                    let cond = self.close(cond);
                    Ok(Spanned::new(*span, Arc::new(Value::FormatCond(*name, format, cond))))
                },
                Err(stop) => Err(stop),
            },
            Term::FormatOverlap(span, labels, formats) => {
                let formats = self.telescope(formats);
                Ok(Spanned::new(*span, Arc::new(Value::FormatOverlap(labels, formats))))
            },
            Term::Prim(span, prim) => {
                let value = Value::prim(*prim, Vec::new());
                assert(values_view(Seq::<ArcValue>::empty()) =~= Seq::<ArcValueV>::empty());
                Ok(Spanned::new(*span, Arc::new(value)))
            },
            Term::ConstLit(span, constant) => Ok(
                Spanned::new(*span, Arc::new(Value::ConstLit(*constant))),
            ),
            Term::ConstMatch(span, head_expr, branches, default_expr) => self.eval_const_match(
                *span,
                head_expr,
                branches,
                *default_expr,
                f,
            ),
        }
    }

    /// The closure of a term over the local environment.
    fn close(&self, term: &'arena Term<'arena>) -> (closure: Closure<'arena>)
        ensures
            closure@ == (ClosureV { local_exprs: self.locals(), term: term@ }),
    {
        let closure = Closure::new(self.local_exprs.clone(), term);
        proof {
            lemma_env_view(&closure.local_exprs);
        }
        closure
    }

    /// The telescope of terms over the local environment.
    fn telescope(&self, terms: &'arena Vec<Term<'arena>>) -> (telescope: Telescope<'arena>)
        ensures
            telescope@ == (TelescopeV {
                local_exprs: self.locals(),
                apply_repr: false,
                terms: terms_view(terms@),
            }),
    {
        let telescope = Telescope::new(self.local_exprs.clone(), terms.as_slice());
        proof {
            lemma_env_view(&telescope.local_exprs);
        }
        telescope
    }

    /// Evaluates a definition, and then the body with the definition bound.
    fn eval_let(
        &mut self,
        span: Span,
        def_expr: &Term<'arena>,
        body_expr: &Term<'arena>,
        fuel: usize,
    ) -> (result: Result<ArcValue<'arena>, Stop>)
        ensures
            final(self).elim_env == old(self).elim_env,
            final(self).local_exprs@ == old(self).local_exprs@,
            value_result(result) == (match model::eval(
                fuel as nat,
                old(self).elim_env@,
                old(self).locals(),
                def_expr@,
            ) {
                Ok(def) => if old(self).locals().len() < model::max_len() {
                    model::merged_result(
                        span,
                        model::eval(
                            fuel as nat,
                            old(self).elim_env@,
                            old(self).locals().push(def),
                            body_expr@,
                        ),
                    )
                } else {
                    Err(Stop::Limit)
                },
                Err(stop) => Err(stop),
            }),
        decreases fuel, 1nat,
    {
        let def = match self.eval(def_expr, fuel) {
            Ok(def) => def,
            Err(stop) => {
                return Err(stop);
            },
        };
        if self.local_exprs.is_full() {
            return Err(Stop::Limit);
        }
        let ghost entries = self.local_exprs@;
        let ghost locals = self.locals();
        self.local_exprs.push(def);
        assert(self.locals() =~= locals.push(def@));
        let body = self.eval(body_expr, fuel);
        self.local_exprs.pop();
        assert(self.local_exprs@ =~= entries);
        match body {
            Ok(body) => Ok(Spanned::merge(span, body)),
            Err(stop) => Err(stop),
        }
    }

    /// Evaluates a function and its argument, and applies the one to the
    /// other.
    fn eval_fun_app(
        &mut self,
        span: Span,
        head_expr: &Term<'arena>,
        arg_expr: &Term<'arena>,
        fuel: usize,
    ) -> (result: Result<ArcValue<'arena>, Stop>)
        ensures
            final(self).elim_env == old(self).elim_env,
            final(self).local_exprs@ == old(self).local_exprs@,
            value_result(result) == (match model::eval(
                fuel as nat,
                old(self).elim_env@,
                old(self).locals(),
                head_expr@,
            ) {
                Ok(head) => match model::eval(
                    fuel as nat,
                    old(self).elim_env@,
                    old(self).locals(),
                    arg_expr@,
                ) {
                    Ok(arg) => model::merged_result(
                        span,
                        model::fun_app(fuel as nat, old(self).elim_env@, head, arg),
                    ),
                    Err(stop) => Err(stop),
                },
                Err(stop) => Err(stop),
            }),
        decreases fuel, 1nat,
    {
        let head = match self.eval(head_expr, fuel) {
            Ok(head) => head,
            Err(stop) => {
                return Err(stop);
            },
        };
        let arg = match self.eval(arg_expr, fuel) {
            Ok(arg) => arg,
            Err(stop) => {
                return Err(stop);
            },
        };
        match self.elim_env.fun_app(head, arg, fuel) {
            Ok(value) => Ok(Spanned::merge(span, value)),
            Err(stop) => Err(stop),
        }
    }

    /// Evaluates a scrutinee, and matches it against the branches.
    fn eval_const_match(
        &mut self,
        span: Span,
        head_expr: &Term<'arena>,
        branches: &'arena Vec<(Const, Term<'arena>)>,
        default_expr: Option<&'arena Term<'arena>>,
        fuel: usize,
    ) -> (result: Result<ArcValue<'arena>, Stop>)
        ensures
            final(self).elim_env == old(self).elim_env,
            final(self).local_exprs@ == old(self).local_exprs@,
            value_result(result) == (match model::eval(
                fuel as nat,
                old(self).elim_env@,
                old(self).locals(),
                head_expr@,
            ) {
                Ok(head) => model::merged_result(
                    span,
                    model::const_match(
                        fuel as nat,
                        old(self).elim_env@,
                        head,
                        BranchesV {
                            local_exprs: old(self).locals(),
                            pattern_branches: branches_view(branches@),
                            default_expr: match default_expr {
                                Some(expr) => Some(expr@),
                                None => None,
                            },
                        },
                    ),
                ),
                Err(stop) => Err(stop),
            }),
        decreases fuel, 1nat,
    {
        let head = match self.eval(head_expr, fuel) {
            Ok(head) => head,
            Err(stop) => {
                return Err(stop);
            },
        };
        let branches = Branches::new(self.local_exprs.clone(), branches.as_slice(), default_expr);
        proof {
            lemma_env_view(&branches.local_exprs);
        }
        match self.elim_env.const_match(head, branches, fuel) {
            Ok(value) => Ok(Spanned::merge(span, value)),
            Err(stop) => Err(stop),
        }
    }

    /// Evaluates terms in order, up to the first that fails.
    fn eval_all(&mut self, terms: &Vec<Term<'arena>>, fuel: usize) -> (result: Result<
        Vec<ArcValue<'arena>>,
        Stop,
    >)
        ensures
            final(self).elim_env == old(self).elim_env,
            final(self).local_exprs@ == old(self).local_exprs@,
            values_result(result) == model::eval_all(
                fuel as nat,
                old(self).elim_env@,
                old(self).locals(),
                terms_view(terms@),
                0,
            ),
        decreases fuel, 1nat,
    {
        let ghost tables = self.elim_env@;
        let ghost locals = self.locals();
        let ghost models = terms_view(terms@);
        let mut values: Vec<ArcValue<'arena>> = Vec::new();
        let mut i: usize = 0;
        while i < terms.len()
            invariant
                i <= terms.len(),
                self.elim_env == old(self).elim_env,
                self.local_exprs@ == old(self).local_exprs@,
                tables == self.elim_env@,
                locals == self.locals(),
                locals == old(self).locals(),
                models == terms_view(terms@),
                model::eval_all(fuel as nat, tables, locals, models, 0) == prepend(
                    values_view(values@),
                    model::eval_all(fuel as nat, tables, locals, models, i as int),
                ),
            decreases terms.len() - i,
        {
            let ghost done = values_view(values@);
            match self.eval(&terms[i], fuel) {
                Ok(value) => {
                    values.push(value);
                    proof {
                        let rest = model::eval_all(fuel as nat, tables, locals, models, i + 1);
                        assert(values_view(values@) =~= done.push(value@));
                        match rest {
                            Ok(rest) => {
                                assert(done + (seq![value@] + rest) =~= done.push(value@) + rest);
                            },
                            Err(_) => {},
                        }
                    }
                },
                Err(stop) => {
                    return Err(stop);
                },
            }
            i = i + 1;
        }
        proof {
            assert(values_view(values@) + Seq::<ArcValueV>::empty() =~= values_view(values@));
        }
        Ok(values)
    }

    /// Applies a value to the parameters among the local bindings, as `infos`
    /// tells them from the definitions.
    pub(crate) fn apply_local_infos(
        &mut self,
        head_expr: ArcValue<'arena>,
        infos: &[LocalInfo],
        fuel: usize,
    ) -> (result: Result<ArcValue<'arena>, Stop>)
        ensures
            final(self).elim_env == old(self).elim_env,
            final(self).local_exprs@ == old(self).local_exprs@,
            value_result(result) == model::apply_local_infos(
                fuel as nat,
                old(self).elim_env@,
                head_expr@,
                infos@,
                old(self).locals(),
                0,
            ),
        decreases fuel, 1nat,
    {
        let ghost tables = self.elim_env@;
        let ghost locals = self.locals();
        let mut applied = head_expr;
        let len = self.local_exprs.len().0;
        let mut i: u16 = 0;
        while (i as usize) < infos.len() && i < len
            invariant
                len == self.local_exprs@.len(),
                self.elim_env == old(self).elim_env,
                self.local_exprs@ == old(self).local_exprs@,
                tables == self.elim_env@,
                locals == self.locals(),
                model::apply_local_infos(
                    fuel as nat,
                    tables,
                    head_expr@,
                    infos@,
                    locals,
                    0,
                ) == model::apply_local_infos(
                    fuel as nat,
                    tables,
                    applied@,
                    infos@,
                    locals,
                    i as int,
                ),
            decreases len - i,
        {
            match infos[i as usize] {
                LocalInfo::Def => {},
                LocalInfo::Param => {
                    let arg = match self.local_exprs.get_level(Level(i)) {
                        Some(arg) => clone_value(arg),
                        None => {
                            return Err(Stop::Limit);
                        },
                    };
                    applied = match self.elim_env.fun_app(applied, arg, fuel) {
                        Ok(next) => next,
                        Err(stop) => {
                            return Err(stop);
                        },
                    };
                },
            }
            i = i + 1;
        }
        Ok(applied)
    }
}

/// The model of the result of a computation that yields values.
pub open spec fn values_result(result: Result<Vec<ArcValue>, Stop>) -> Result<
    Seq<ArcValueV>,
    Stop,
> {
    match result {
        Ok(values) => Ok(values_view(values@)),
        Err(stop) => Err(stop),
    }
}

/// What is done, followed by what the rest of a computation yields.
pub open spec fn prepend<T>(done: Seq<T>, rest: Result<Seq<T>, Stop>) -> Result<Seq<T>, Stop> {
    match rest {
        Ok(rest) => Ok(done + rest),
        Err(stop) => Err(stop),
    }
}

impl<'arena, 'env> ElimEnv<'arena, 'env> {
    /// The value of a metavariable: its solution, or the variable itself.
    pub(crate) fn meta_value(&self, span: Span, var: Level) -> (result: Result<
        ArcValue<'arena>,
        Stop,
    >)
        ensures
            value_result(result) == model::meta_value(self@, span, var),
    {
        match self.meta_exprs.get_level(var) {
            Some(Some(value)) => Ok(Spanned::new(span, share(&value.inner))),
            Some(None) => Ok(Spanned::new(span, Arc::new(Value::meta_var(var)))),
            None => Err(Stop::Error(Error::UnboundMetaVar)),
        }
    }
}

} // verus!
