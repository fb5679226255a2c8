//! The mathematical model of the semantics: values as trees over sequences,
//! and evaluation, elimination, quotation and conversion as functions on
//! them.
//!
//! Terms of a dependently typed language need not have a normal form, so
//! every function here takes a budget: the depth to which it may nest. With a
//! budget that is too small the result is [`Stop::Limit`]; any other result
//! is the same with every larger budget.

use crate::core_lang::{Const, LocalInfo, Prim, TermV, UIntStyle};
use crate::env::{Index, Level};
use crate::source::Span;
use crate::symbol::StringId;
use vstd::prelude::*;

verus! {

/// Errors encountered while interpreting terms. Each of them means that the
/// term was not well typed in its environment.
#[derive(Clone, Copy, PartialEq, Eq, Structural, Debug)]
pub enum Error {
    UnboundItemVar,
    UnboundLocalVar,
    UnboundMetaVar,
    InvalidFunctionApp,
    InvalidRecordProj,
    InvalidConstMatch,
    InvalidFormatRepr,
    MissingConstDefault,
}

/// Why a computation ended without a result.
#[derive(Clone, Copy, PartialEq, Eq, Structural, Debug)]
pub enum Stop {
    /// The term was ill typed.
    Error(Error),
    /// The budget was used up, or an environment would have grown past the
    /// largest length that an index can address.
    Limit,
}

/// The head of a stuck value.
#[derive(Clone, Copy, PartialEq, Eq, Structural, Debug)]
pub enum Head {
    /// Primitives that have not yet been reduced.
    Prim(Prim),
    /// Variables that refer to local binders.
    LocalVar(Level),
    /// Variables that refer to unsolved unification problems.
    MetaVar(Level),
}

/// The model of a value together with its span.
pub ghost struct ArcValueV {
    pub span: Span,
    pub value: ValueV,
}

/// The model of a value in weak head normal form.
pub ghost enum ValueV {
    Stuck(Head, Seq<ElimV>),
    Universe,
    FunType(Option<StringId>, Box<ArcValueV>, ClosureV),
    FunLit(Option<StringId>, ClosureV),
    RecordType(Seq<StringId>, TelescopeV),
    RecordLit(Seq<StringId>, Seq<ArcValueV>),
    ArrayLit(Seq<ArcValueV>),
    FormatRecord(Seq<StringId>, TelescopeV),
    FormatCond(StringId, Box<ArcValueV>, ClosureV),
    FormatOverlap(Seq<StringId>, TelescopeV),
    ConstLit(Const),
}

/// The model of a pending elimination.
pub ghost enum ElimV {
    FunApp(ArcValueV),
    RecordProj(StringId),
    ConstMatch(BranchesV),
}

/// The model of a closure: a term, and the values of the bindings around
/// it, the oldest first.
pub ghost struct ClosureV {
    pub local_exprs: Seq<ArcValueV>,
    pub term: TermV,
}

/// The model of a telescope.
pub ghost struct TelescopeV {
    pub local_exprs: Seq<ArcValueV>,
    pub apply_repr: bool,
    pub terms: Seq<TermV>,
}

/// The model of the branches of a match on a constant.
pub ghost struct BranchesV {
    pub local_exprs: Seq<ArcValueV>,
    pub pattern_branches: Seq<(Const, TermV)>,
    pub default_expr: Option<TermV>,
}

/// The model of what elimination depends on: the values of the items, and
/// the solutions of the metavariables that have one.
pub ghost struct TablesV {
    pub items: Seq<ArcValueV>,
    pub metas: Seq<Option<ArcValueV>>,
}

/// The largest number of bindings that an environment can hold.
pub open spec fn max_len() -> nat {
    u16::MAX as nat
}

pub open spec fn spanned(span: Span, value: ValueV) -> ArcValueV {
    ArcValueV { span, value }
}

/// The value with its span widened to cover `span`.
pub open spec fn merged(span: Span, value: ArcValueV) -> ArcValueV {
    ArcValueV { span: value.span.spec_merge(span), value: value.value }
}

pub open spec fn merged_result(span: Span, result: Result<ArcValueV, Stop>) -> Result<
    ArcValueV,
    Stop,
> {
    match result {
        Ok(value) => Ok(merged(span, value)),
        Err(stop) => Err(stop),
    }
}

/// A primitive applied to arguments.
pub open spec fn prim_value(prim: Prim, args: Seq<ArcValueV>) -> ValueV {
    ValueV::Stuck(Head::Prim(prim), Seq::new(args.len(), |i: int| ElimV::FunApp(args[i])))
}

pub open spec fn local_var(level: Level) -> ValueV {
    ValueV::Stuck(Head::LocalVar(level), Seq::empty())
}

pub open spec fn meta_var(level: Level) -> ValueV {
    ValueV::Stuck(Head::MetaVar(level), Seq::empty())
}

/// A fresh variable for an environment of length `len`.
pub open spec fn fresh_var(len: nat) -> ArcValueV {
    spanned(Span::Empty, local_var(Level(len as u16)))
}

/// The value of a metavariable: its solution, or the variable itself where
/// it has none.
pub open spec fn meta_value(tables: TablesV, span: Span, var: Level) -> Result<ArcValueV, Stop> {
    if var.0 < tables.metas.len() {
        match tables.metas[var.0 as int] {
            Some(value) => Ok(spanned(span, value.value)),
            None => Ok(spanned(span, meta_var(var))),
        }
    } else {
        Err(Stop::Error(Error::UnboundMetaVar))
    }
}

/// The position of the first occurrence of `label` at or after `from`.
pub open spec fn label_position(labels: Seq<StringId>, label: StringId, from: int) -> Option<int>
    decreases labels.len() - from,
{
    if from < 0 || from >= labels.len() {
        None
    } else if labels[from] == label {
        Some(from)
    } else {
        label_position(labels, label, from + 1)
    }
}

/// Projects a field from a record, or records the projection on a stuck
/// value.
pub open spec fn record_proj(head: ArcValueV, label: StringId) -> Result<ArcValueV, Stop> {
    match head.value {
        ValueV::RecordLit(labels, exprs) => match label_position(labels, label, 0) {
            Some(i) => if i < exprs.len() {
                Ok(exprs[i])
            } else {
                Err(Stop::Error(Error::InvalidRecordProj))
            },
            None => Err(Stop::Error(Error::InvalidRecordProj)),
        },
        ValueV::Stuck(h, spine) => Ok(
            spanned(head.span, ValueV::Stuck(h, spine.push(ElimV::RecordProj(label)))),
        ),
        _ => Err(Stop::Error(Error::InvalidRecordProj)),
    }
}

/// The position of the first branch at or after `from` whose pattern is the
/// constant.
pub open spec fn branch_position(
    branches: Seq<(Const, TermV)>,
    constant: Const,
    from: int,
) -> Option<int>
    decreases branches.len() - from,
{
    if from < 0 || from >= branches.len() {
        None
    } else if constant.same(branches[from].0) {
        Some(from)
    } else {
        branch_position(branches, constant, from + 1)
    }
}

/// Evaluates a term to weak head normal form, in an environment that holds
/// the values of its free local variables, the oldest first.
pub open spec fn eval(fuel: nat, tables: TablesV, locals: Seq<ArcValueV>, term: TermV) -> Result<
    ArcValueV,
    Stop,
>
    decreases fuel, 0nat,
{
    if fuel == 0 {
        Err(Stop::Limit)
    } else {
        let f = (fuel - 1) as nat;
        match term {
            TermV::ItemVar(span, var) => if var.0 < tables.items.len() {
                Ok(spanned(span, tables.items[var.0 as int].value))
            } else {
                Err(Stop::Error(Error::UnboundItemVar))
            },
            TermV::LocalVar(span, var) => if var.0 < locals.len() {
                Ok(spanned(span, locals[locals.len() - 1 - var.0].value))
            } else {
                Err(Stop::Error(Error::UnboundLocalVar))
            },
            TermV::MetaVar(span, var) => meta_value(tables, span, var),
            TermV::InsertedMeta(span, var, infos) => match meta_value(tables, span, var) {
                Ok(head) => apply_local_infos(f, tables, head, infos, locals, 0),
                Err(stop) => Err(stop),
            },
            TermV::Ann(span, expr, _) => merged_result(span, eval(f, tables, locals, *expr)),
            TermV::Let(span, _, _, def_expr, body_expr) => match eval(
                f,
                tables,
                locals,
                *def_expr,
            ) {
                Ok(def) => if locals.len() < max_len() {
                    merged_result(span, eval(f, tables, locals.push(def), *body_expr))
                } else {
                    Err(Stop::Limit)
                },
                Err(stop) => Err(stop),
            },
            TermV::Universe(span) => Ok(spanned(span, ValueV::Universe)),
            TermV::FunType(span, name, param_type, body_type) => match eval(
                f,
                tables,
                locals,
                *param_type,
            ) {
                Ok(param) => Ok(
                    spanned(
                        span,
                        ValueV::FunType(
                            name,
                            Box::new(param),
                            ClosureV { local_exprs: locals, term: *body_type },
                        ),
                    ),
                ),
                Err(stop) => Err(stop),
            },
            TermV::FunLit(span, name, body_expr) => Ok(
                spanned(
                    span,
                    ValueV::FunLit(name, ClosureV { local_exprs: locals, term: *body_expr }),
                ),
            ),
            TermV::FunApp(span, head_expr, arg_expr) => match eval(f, tables, locals, *head_expr) {
                Ok(head) => match eval(f, tables, locals, *arg_expr) {
                    Ok(arg) => merged_result(span, fun_app(f, tables, head, arg)),
                    Err(stop) => Err(stop),
                },
                Err(stop) => Err(stop),
            },
            TermV::RecordType(span, labels, types) => Ok(
                spanned(
                    span,
                    ValueV::RecordType(
                        labels,
                        TelescopeV { local_exprs: locals, apply_repr: false, terms: types },
                    ),
                ),
            ),
            TermV::RecordLit(span, labels, exprs) => match eval_all(f, tables, locals, exprs, 0) {
                Ok(values) => Ok(spanned(span, ValueV::RecordLit(labels, values))),
                Err(stop) => Err(stop),
            },
            TermV::RecordProj(span, head_expr, label) => match eval(f, tables, locals, *head_expr) {
                Ok(head) => merged_result(span, record_proj(head, label)),
                Err(stop) => Err(stop),
            },
            TermV::ArrayLit(span, exprs) => match eval_all(f, tables, locals, exprs, 0) {
                Ok(values) => Ok(spanned(span, ValueV::ArrayLit(values))),
                Err(stop) => Err(stop),
            },
            TermV::FormatRecord(span, labels, formats) => Ok(
                spanned(
                    span,
                    ValueV::FormatRecord(
                        labels,
                        TelescopeV { local_exprs: locals, apply_repr: false, terms: formats },
                    ),
                ),
            ),
            TermV::FormatCond(span, name, format, cond) => match eval(f, tables, locals, *format) {
                Ok(format) => Ok(
                    spanned(
                        span,
                        ValueV::FormatCond(
                            name,
                            Box::new(format),
                            ClosureV { local_exprs: locals, term: *cond },
                        ),
                    ),
                ),
                Err(stop) => Err(stop),
            },
            TermV::FormatOverlap(span, labels, formats) => Ok(
                spanned(
                    span,
                    ValueV::FormatOverlap(
                        labels,
                        TelescopeV { local_exprs: locals, apply_repr: false, terms: formats },
                    ),
                ),
            ),
            TermV::Prim(span, prim) => Ok(spanned(span, prim_value(prim, Seq::empty()))),
            TermV::ConstLit(span, constant) => Ok(spanned(span, ValueV::ConstLit(constant))),
            TermV::ConstMatch(span, head_expr, branches, default_expr) => match eval(
                f,
                tables,
                locals,
                *head_expr,
            ) {
                Ok(head) => merged_result(
                    span,
                    const_match(
                        f,
                        tables,
                        head,
                        BranchesV {
                            local_exprs: locals,
                            pattern_branches: branches,
                            default_expr: match default_expr {
                                Some(expr) => Some(*expr),
                                None => None,
                            },
                        },
                    ),
                ),
                Err(stop) => Err(stop),
            },
        }
    }
}

/// Evaluates the terms from position `from` on, in order. The first failure
/// is the result.
pub open spec fn eval_all(
    fuel: nat,
    tables: TablesV,
    locals: Seq<ArcValueV>,
    terms: Seq<TermV>,
    from: int,
) -> Result<Seq<ArcValueV>, Stop>
    decreases fuel, 1 + terms.len() - from,
{
    if from < 0 || from >= terms.len() {
        Ok(Seq::empty())
    } else {
        match eval(fuel, tables, locals, terms[from]) {
            Ok(value) => match eval_all(fuel, tables, locals, terms, from + 1) {
                Ok(values) => Ok(seq![value] + values),
                Err(stop) => Err(stop),
            },
            Err(stop) => Err(stop),
        }
    }
}

/// Applies the value of a metavariable to the parameters in scope where it
/// was inserted: to the binding at each level from `from` on that is a
/// parameter, the oldest first.
pub open spec fn apply_local_infos(
    fuel: nat,
    tables: TablesV,
    head: ArcValueV,
    infos: Seq<LocalInfo>,
    locals: Seq<ArcValueV>,
    from: int,
) -> Result<ArcValueV, Stop>
    decreases fuel, 1 + infos.len() - from,
{
    if from < 0 || from >= infos.len() || from >= locals.len() {
        Ok(head)
    } else {
        match infos[from] {
            LocalInfo::Def => apply_local_infos(fuel, tables, head, infos, locals, from + 1),
            LocalInfo::Param => match fun_app(fuel, tables, head, locals[from]) {
                Ok(applied) => apply_local_infos(fuel, tables, applied, infos, locals, from + 1),
                Err(stop) => Err(stop),
            },
        }
    }
}

/// Applies a closure to a value: the body is evaluated with the value bound
/// as the most recent local.
pub open spec fn apply_closure(
    fuel: nat,
    tables: TablesV,
    closure: ClosureV,
    arg: ArcValueV,
) -> Result<ArcValueV, Stop>
    decreases fuel, 0nat,
{
    if fuel == 0 || closure.local_exprs.len() >= max_len() {
        Err(Stop::Limit)
    } else {
        eval((fuel - 1) as nat, tables, closure.local_exprs.push(arg), closure.term)
    }
}

/// Applies a function to an argument: a function literal is reduced, and a
/// stuck value records the application, which a primitive at its head may
/// then reduce.
pub open spec fn fun_app(fuel: nat, tables: TablesV, head: ArcValueV, arg: ArcValueV) -> Result<
    ArcValueV,
    Stop,
>
    decreases fuel, 0nat,
{
    if fuel == 0 {
        Err(Stop::Limit)
    } else {
        let f = (fuel - 1) as nat;
        match head.value {
            ValueV::FunLit(_, body_expr) => apply_closure(f, tables, body_expr, arg),
            ValueV::Stuck(h, spine) => {
                let spine = spine.push(ElimV::FunApp(arg));
                let stuck = spanned(head.span, ValueV::Stuck(h, spine));
                match h {
                    Head::Prim(prim) => match prim_step(f, tables, prim, spine) {
                        Ok(Some(reduced)) => Ok(reduced),
                        Ok(None) => Ok(stuck),
                        Err(stop) => Err(stop),
                    },
                    _ => Ok(stuck),
                }
            },
            _ => Err(Stop::Error(Error::InvalidFunctionApp)),
        }
    }
}

/// Matches a constant against branches: the first branch with that constant
/// is evaluated, and otherwise the default with the constant bound. A stuck
/// value records the match.
pub open spec fn const_match(
    fuel: nat,
    tables: TablesV,
    head: ArcValueV,
    branches: BranchesV,
) -> Result<ArcValueV, Stop>
    decreases fuel, 0nat,
{
    if fuel == 0 {
        Err(Stop::Limit)
    } else {
        let f = (fuel - 1) as nat;
        match head.value {
            ValueV::ConstLit(constant) => match branch_position(
                branches.pattern_branches,
                constant,
                0,
            ) {
                Some(i) => eval(f, tables, branches.local_exprs, branches.pattern_branches[i].1),
                None => match branches.default_expr {
                    Some(default_expr) => if branches.local_exprs.len() < max_len() {
                        eval(f, tables, branches.local_exprs.push(head), default_expr)
                    } else {
                        Err(Stop::Limit)
                    },
                    None => Err(Stop::Error(Error::MissingConstDefault)),
                },
            },
            ValueV::Stuck(h, spine) => Ok(
                spanned(head.span, ValueV::Stuck(h, spine.push(ElimV::ConstMatch(branches)))),
            ),
            _ => Err(Stop::Error(Error::InvalidConstMatch)),
        }
    }
}

/// Applies the eliminations of a spine from position `from` on, in order.
pub open spec fn apply_spine(
    fuel: nat,
    tables: TablesV,
    head: ArcValueV,
    spine: Seq<ElimV>,
    from: int,
) -> Result<ArcValueV, Stop>
    decreases fuel, 1 + spine.len() - from,
{
    if from < 0 || from >= spine.len() {
        Ok(head)
    } else {
        let applied = match spine[from] {
            ElimV::FunApp(arg) => fun_app(fuel, tables, head, arg),
            ElimV::RecordProj(label) => record_proj(head, label),
            ElimV::ConstMatch(branches) => const_match(fuel, tables, head, branches),
        };
        match applied {
            Ok(next) => apply_spine(fuel, tables, next, spine, from + 1),
            Err(stop) => Err(stop),
        }
    }
}

/// One step of forcing: the solution of the metavariable at the head of the
/// value, applied to its spine; or nothing where the head is no solved
/// metavariable.
pub open spec fn force_step(fuel: nat, tables: TablesV, value: ArcValueV) -> Result<
    Option<ArcValueV>,
    Stop,
> {
    match value.value {
        ValueV::Stuck(Head::MetaVar(var), spine) => if var.0 < tables.metas.len() {
            match tables.metas[var.0 as int] {
                Some(solution) => match apply_spine(fuel, tables, solution, spine, 0) {
                    Ok(next) => Ok(Some(next)),
                    Err(stop) => Err(stop),
                },
                None => Ok(None),
            }
        } else {
            Err(Stop::Error(Error::UnboundMetaVar))
        },
        _ => Ok(None),
    }
}

/// Brings a value up to date with the solutions of the metavariables: while
/// its head is a solved metavariable, the solution takes its place.
pub open spec fn force(fuel: nat, tables: TablesV, value: ArcValueV) -> Result<ArcValueV, Stop>
    decreases fuel,
{
    if fuel == 0 {
        Err(Stop::Limit)
    } else {
        match force_step((fuel - 1) as nat, tables, value) {
            Ok(Some(next)) => force((fuel - 1) as nat, tables, next),
            Ok(None) => Ok(value),
            Err(stop) => Err(stop),
        }
    }
}

/// The first value of a telescope, and the telescope of the others, which
/// still lacks the binding that they scope over. `None` for the empty
/// telescope.
pub open spec fn split_telescope(fuel: nat, tables: TablesV, telescope: TelescopeV) -> Result<
    Option<(ArcValueV, TelescopeV)>,
    Stop,
>
    decreases fuel, 0nat,
{
    if telescope.terms.len() == 0 {
        Ok(None)
    } else if fuel == 0 || telescope.local_exprs.len() >= max_len() {
        Err(Stop::Limit)
    } else {
        let f = (fuel - 1) as nat;
        let rest = TelescopeV {
            local_exprs: telescope.local_exprs,
            apply_repr: telescope.apply_repr,
            terms: telescope.terms.subrange(1, telescope.terms.len() as int),
        };
        match eval(f, tables, telescope.local_exprs, telescope.terms[0]) {
            Ok(value) => if telescope.apply_repr {
                match format_repr(f, tables, value) {
                    Ok(repr) => Ok(Some((repr, rest))),
                    Err(stop) => Err(stop),
                }
            } else {
                Ok(Some((value, rest)))
            },
            Err(stop) => Err(stop),
        }
    }
}

/// The telescope that `split_telescope` left, with the binding it lacked.
pub open spec fn resume_telescope(rest: TelescopeV, previous: ArcValueV) -> TelescopeV {
    TelescopeV {
        local_exprs: rest.local_exprs.push(previous),
        apply_repr: rest.apply_repr,
        terms: rest.terms,
    }
}

/// The model of the result of splitting branches.
pub ghost enum SplitBranchesV {
    Branch((Const, ArcValueV), BranchesV),
    Default(ClosureV),
    End,
}

/// The first branch with its body evaluated, and the other branches; or the
/// default as a closure, where no branch is left.
pub open spec fn split_branches(fuel: nat, tables: TablesV, branches: BranchesV) -> Result<
    SplitBranchesV,
    Stop,
>
    decreases fuel, 0nat,
{
    if branches.pattern_branches.len() == 0 {
        match branches.default_expr {
            Some(default_expr) => Ok(
                SplitBranchesV::Default(
                    ClosureV { local_exprs: branches.local_exprs, term: default_expr },
                ),
            ),
            None => Ok(SplitBranchesV::End),
        }
    } else if fuel == 0 {
        Err(Stop::Limit)
    } else {
        let (pattern, body_expr) = branches.pattern_branches[0];
        match eval((fuel - 1) as nat, tables, branches.local_exprs, body_expr) {
            Ok(body) => Ok(
                SplitBranchesV::Branch(
                    (pattern, body),
                    BranchesV {
                        local_exprs: branches.local_exprs,
                        pattern_branches: branches.pattern_branches.subrange(
                            1,
                            branches.pattern_branches.len() as int,
                        ),
                        default_expr: branches.default_expr,
                    },
                ),
            ),
            Err(stop) => Err(stop),
        }
    }
}

/// A primitive applied to the given arguments, without a span.
pub open spec fn prim_app(prim: Prim, args: Seq<ArcValueV>) -> ArcValueV {
    spanned(Span::Empty, prim_value(prim, args))
}

/// The argument of a function application.
pub open spec fn app_arg(elim: ElimV) -> Option<ArcValueV> {
    match elim {
        ElimV::FunApp(arg) => Some(arg),
        _ => None,
    }
}

/// Whether the elimination at position `i`, if there is one, is a function
/// application.
pub open spec fn is_app(spine: Seq<ElimV>, i: int) -> bool {
    0 <= i < spine.len() ==> spine[i] is FunApp
}

/// Whether the spine holds exactly `n` function applications, for `n` up to
/// five.
pub open spec fn is_args(spine: Seq<ElimV>, n: nat) -> bool {
    spine.len() == n && n <= 5 && is_app(spine, 0) && is_app(spine, 1) && is_app(spine, 2)
        && is_app(spine, 3) && is_app(spine, 4)
}

/// The representation type of a format with an integer or float primitive
/// at its head, and no arguments.
pub open spec fn atomic_repr(prim: Prim) -> Option<Prim> {
    match prim {
        Prim::FormatU8 => Some(Prim::U8Type),
        Prim::FormatU16Be | Prim::FormatU16Le => Some(Prim::U16Type),
        Prim::FormatU32Be | Prim::FormatU32Le => Some(Prim::U32Type),
        Prim::FormatU64Be | Prim::FormatU64Le => Some(Prim::U64Type),
        Prim::FormatS8 => Some(Prim::S8Type),
        Prim::FormatS16Be | Prim::FormatS16Le => Some(Prim::S16Type),
        Prim::FormatS32Be | Prim::FormatS32Le => Some(Prim::S32Type),
        Prim::FormatS64Be | Prim::FormatS64Le => Some(Prim::S64Type),
        Prim::FormatF32Be | Prim::FormatF32Le => Some(Prim::F32Type),
        Prim::FormatF64Be | Prim::FormatF64Le => Some(Prim::F64Type),
        Prim::FormatStreamPos => Some(Prim::PosType),
        Prim::FormatFail => Some(Prim::VoidType),
        Prim::ReportedError => Some(Prim::ReportedError),
        _ => None,
    }
}

/// The array type that represents an array format.
pub open spec fn array_repr(prim: Prim) -> Option<Prim> {
    match prim {
        Prim::FormatArray8 => Some(Prim::Array8Type),
        Prim::FormatArray16 => Some(Prim::Array16Type),
        Prim::FormatArray32 => Some(Prim::Array32Type),
        Prim::FormatArray64 => Some(Prim::Array64Type),
        _ => None,
    }
}

pub open spec fn is_limit(prim: Prim) -> bool {
    prim == Prim::FormatLimit8 || prim == Prim::FormatLimit16 || prim == Prim::FormatLimit32
        || prim == Prim::FormatLimit64
}

/// The telescope of the representations of the formats in a telescope.
pub open spec fn repr_telescope(formats: TelescopeV) -> TelescopeV {
    TelescopeV { local_exprs: formats.local_exprs, apply_repr: true, terms: formats.terms }
}

/// The type of the values that parsing a format yields.
pub open spec fn format_repr(fuel: nat, tables: TablesV, format: ArcValueV) -> Result<
    ArcValueV,
    Stop,
>
    decreases fuel, 0nat,
{
    if fuel == 0 {
        Err(Stop::Limit)
    } else {
        let f = (fuel - 1) as nat;
        match format.value {
            ValueV::FormatRecord(labels, formats) => Ok(
                spanned(format.span, ValueV::RecordType(labels, repr_telescope(formats))),
            ),
            ValueV::FormatOverlap(labels, formats) => Ok(
                spanned(format.span, ValueV::RecordType(labels, repr_telescope(formats))),
            ),
            ValueV::FormatCond(_, inner, _) => format_repr(f, tables, *inner),
            ValueV::Stuck(Head::Prim(prim), spine) => prim_repr(f, tables, format, prim, spine),
            ValueV::Stuck(_, _) => Ok(stuck_repr(format)),
            _ => Err(Stop::Error(Error::InvalidFormatRepr)),
        }
    }
}

/// The representation of a format that is not known yet: the primitive
/// `FormatRepr` applied to the format.
pub open spec fn stuck_repr(format: ArcValueV) -> ArcValueV {
    spanned(format.span, prim_value(Prim::FormatRepr, seq![format]))
}

/// The representation of a format that is a primitive applied to the
/// arguments in `spine`.
pub open spec fn prim_repr(
    fuel: nat,
    tables: TablesV,
    format: ArcValueV,
    prim: Prim,
    spine: Seq<ElimV>,
) -> Result<ArcValueV, Stop>
    decreases fuel, 1nat,
{
    if spine.len() == 0 {
        match atomic_repr(prim) {
            Some(repr) => Ok(spanned(format.span, prim_value(repr, Seq::empty()))),
            None => Ok(stuck_repr(format)),
        }
    } else if spine.len() == 1 {
        match app_arg(spine[0]) {
            Some(elem) => if prim == Prim::FormatRepeatUntilEnd {
                match format_repr(fuel, tables, elem) {
                    Ok(repr) => Ok(spanned(format.span, prim_value(Prim::ArrayType, seq![repr]))),
                    Err(stop) => Err(stop),
                }
            } else {
                Ok(stuck_repr(format))
            },
            None => Ok(stuck_repr(format)),
        }
    } else if spine.len() == 2 {
        let first = app_arg(spine[0]);
        let second = app_arg(spine[1]);
        if array_repr(prim) is Some && first is Some && second is Some {
            match format_repr(fuel, tables, second->0) {
                Ok(repr) => Ok(
                    spanned(format.span, prim_value(array_repr(prim)->0, seq![first->0, repr])),
                ),
                Err(stop) => Err(stop),
            }
        } else if is_limit(prim) && second is Some {
            format_repr(fuel, tables, second->0)
        } else if prim == Prim::FormatLink && second is Some {
            Ok(spanned(format.span, prim_value(Prim::RefType, seq![second->0])))
        } else if prim == Prim::FormatDeref && first is Some {
            format_repr(fuel, tables, first->0)
        } else if (prim == Prim::FormatSucceed || prim == Prim::FormatUnwrap) && first is Some {
            Ok(first->0)
        } else {
            Ok(stuck_repr(format))
        }
    } else {
        Ok(stuck_repr(format))
    }
}

/// The index that a constant stands for, where it is an unsigned integer
/// that fits the machine's word.
pub open spec fn index_of(constant: Const) -> Option<int> {
    match constant {
        Const::U8(index, _) => Some(index as int),
        Const::U16(index, _) => Some(index as int),
        Const::U32(index, _) => if index <= usize::MAX {
            Some(index as int)
        } else {
            None
        },
        Const::U64(index, _) => if index <= usize::MAX {
            Some(index as int)
        } else {
            None
        },
        _ => None,
    }
}

/// The element of an array literal at a constant index: the spine holds two
/// type arguments, the index and the array.
pub open spec fn array_index(spine: Seq<ElimV>) -> Option<ArcValueV> {
    if is_args(spine, 4) {
        match (app_arg(spine[2])->0.value, app_arg(spine[3])->0.value) {
            (ValueV::ConstLit(constant), ValueV::ArrayLit(elems)) => match index_of(constant) {
                Some(index) => if index < elems.len() {
                    Some(elems[index])
                } else {
                    None
                },
                None => None,
            },
            _ => None,
        }
    } else {
        None
    }
}

/// Looks for the first element from position `from` on that the predicate
/// holds of. The search gives no result where the predicate does not reduce
/// to a boolean on some element before that.
pub open spec fn array_find(
    fuel: nat,
    tables: TablesV,
    pred: ArcValueV,
    elems: Seq<ArcValueV>,
    from: int,
) -> Result<Option<ArcValueV>, Stop>
    decreases fuel, 1 + elems.len() - from,
{
    if from < 0 || from >= elems.len() {
        Ok(Some(prim_app(Prim::OptionNone, Seq::empty())))
    } else {
        match fun_app(fuel, tables, pred, elems[from]) {
            Ok(found) => match found.value {
                ValueV::ConstLit(Const::Bool(true)) => Ok(
                    Some(spanned(elems[from].span, prim_value(Prim::OptionSome, seq![elems[from]]))),
                ),
                ValueV::ConstLit(Const::Bool(false)) => array_find(
                    fuel,
                    tables,
                    pred,
                    elems,
                    from + 1,
                ),
                _ => Ok(None),
            },
            Err(stop) => Err(stop),
        }
    }
}

pub open spec fn is_array_find(prim: Prim) -> bool {
    prim == Prim::Array8Find || prim == Prim::Array16Find || prim == Prim::Array32Find || prim
        == Prim::Array64Find
}

pub open spec fn is_array_index(prim: Prim) -> bool {
    prim == Prim::Array8Index || prim == Prim::Array16Index || prim == Prim::Array32Index || prim
        == Prim::Array64Index
}

/// Folds an option: the result for no value where the option is the
/// primitive for none, and the function applied to the value where it is the
/// primitive for some value applied to one. Anything else stays stuck.
pub open spec fn option_fold(
    fuel: nat,
    tables: TablesV,
    on_none: ArcValueV,
    on_some: ArcValueV,
    option: ArcValueV,
) -> Result<Option<ArcValueV>, Stop>
    decreases fuel, 1nat,
{
    match option.value {
        ValueV::Stuck(Head::Prim(prim), args) => if prim == Prim::OptionSome && is_args(args, 1) {
            match fun_app(fuel, tables, on_some, app_arg(args[0])->0) {
                Ok(value) => Ok(Some(value)),
                Err(stop) => Err(stop),
            }
        } else if prim == Prim::OptionNone && args.len() == 0 {
            Ok(Some(on_none))
        } else {
            Ok(None)
        },
        _ => Ok(None),
    }
}

/// One step of a primitive on its arguments: the value that the application
/// reduces to, or `None` where it stays stuck.
pub open spec fn prim_step(fuel: nat, tables: TablesV, prim: Prim, spine: Seq<ElimV>) -> Result<
    Option<ArcValueV>,
    Stop,
>
    decreases fuel, 0nat,
{
    if fuel == 0 {
        Err(Stop::Limit)
    } else {
        let f = (fuel - 1) as nat;
        if prim == Prim::FormatRepr {
            if is_args(spine, 1) {
                match format_repr(f, tables, app_arg(spine[0])->0) {
                    Ok(repr) => Ok(Some(repr)),
                    Err(stop) => Err(stop),
                }
            } else {
                Ok(None)
            }
        } else if prim == Prim::OptionFold {
            if is_args(spine, 5) {
                option_fold(f, tables, app_arg(spine[2])->0, app_arg(spine[3])->0, app_arg(spine[4])->0)
            } else {
                Ok(None)
            }
        } else if is_array_find(prim) {
            if is_args(spine, 4) {
                match app_arg(spine[3])->0.value {
                    ValueV::ArrayLit(elems) => array_find(f, tables, app_arg(spine[2])->0, elems, 0),
                    _ => Ok(None),
                }
            } else {
                Ok(None)
            }
        } else if is_array_index(prim) {
            Ok(array_index(spine))
        } else {
            Ok(const_step(prim, spine))
        }
    }
}

/// The constant that an elimination applies to.
pub open spec fn const_arg(elim: ElimV) -> Option<Const> {
    match elim {
        ElimV::FunApp(arg) => match arg.value {
            ValueV::ConstLit(constant) => Some(constant),
            _ => None,
        },
        _ => None,
    }
}

/// One step of a primitive that computes on constants.
pub open spec fn const_step(prim: Prim, spine: Seq<ElimV>) -> Option<ArcValueV> {
    let folded = if spine.len() == 1 {
        match const_arg(spine[0]) {
            Some(x) => fold_unary(prim, x),
            None => None,
        }
    } else if spine.len() == 2 {
        match (const_arg(spine[0]), const_arg(spine[1])) {
            (Some(x), Some(y)) => fold_binary(prim, x, y),
            _ => None,
        }
    } else {
        None
    };
    match folded {
        Some(constant) => Some(spanned(Span::Empty, ValueV::ConstLit(constant))),
        None => None,
    }
}

/// The widths of the fixed-width integers.
pub ghost enum Width {
    W8,
    W16,
    W32,
    W64,
}

impl Width {
    pub open spec fn bits(self) -> int {
        match self {
            Width::W8 => 8,
            Width::W16 => 16,
            Width::W32 => 32,
            Width::W64 => 64,
        }
    }

    /// The largest unsigned integer of this width.
    pub open spec fn umax(self) -> int {
        match self {
            Width::W8 => u8::MAX as int,
            Width::W16 => u16::MAX as int,
            Width::W32 => u32::MAX as int,
            Width::W64 => u64::MAX as int,
        }
    }

    /// The smallest signed integer of this width.
    pub open spec fn smin(self) -> int {
        match self {
            Width::W8 => i8::MIN as int,
            Width::W16 => i16::MIN as int,
            Width::W32 => i32::MIN as int,
            Width::W64 => i64::MIN as int,
        }
    }

    /// The largest signed integer of this width.
    pub open spec fn smax(self) -> int {
        match self {
            Width::W8 => i8::MAX as int,
            Width::W16 => i16::MAX as int,
            Width::W32 => i32::MAX as int,
            Width::W64 => i64::MAX as int,
        }
    }
}

/// The unsigned integer that a constant holds, with its width and style.
pub open spec fn uint_of(constant: Const) -> Option<(Width, int, UIntStyle)> {
    match constant {
        Const::U8(x, style) => Some((Width::W8, x as int, style)),
        Const::U16(x, style) => Some((Width::W16, x as int, style)),
        Const::U32(x, style) => Some((Width::W32, x as int, style)),
        Const::U64(x, style) => Some((Width::W64, x as int, style)),
        _ => None,
    }
}

/// The signed integer that a constant holds, with its width.
pub open spec fn sint_of(constant: Const) -> Option<(Width, int)> {
    match constant {
        Const::S8(x) => Some((Width::W8, x as int)),
        Const::S16(x) => Some((Width::W16, x as int)),
        Const::S32(x) => Some((Width::W32, x as int)),
        Const::S64(x) => Some((Width::W64, x as int)),
        _ => None,
    }
}

/// The unsigned constant of a width that holds `x`, where it is in range.
pub open spec fn uint(width: Width, x: int, style: UIntStyle) -> Option<Const> {
    if 0 <= x <= width.umax() {
        Some(
            match width {
                Width::W8 => Const::U8(x as u8, style),
                Width::W16 => Const::U16(x as u16, style),
                Width::W32 => Const::U32(x as u32, style),
                Width::W64 => Const::U64(x as u64, style),
            },
        )
    } else {
        None
    }
}

/// The signed constant of a width that holds `x`, where it is in range.
pub open spec fn sint(width: Width, x: int) -> Option<Const> {
    if width.smin() <= x <= width.smax() {
        Some(
            match width {
                Width::W8 => Const::S8(x as i8),
                Width::W16 => Const::S16(x as i16),
                Width::W32 => Const::S32(x as i32),
                Width::W64 => Const::S64(x as i64),
            },
        )
    } else {
        None
    }
}

/// The comparisons.
pub ghost enum Comparison {
    Eq,
    Neq,
    Gt,
    Lt,
    Gte,
    Lte,
}

impl Comparison {
    pub open spec fn holds(self, x: int, y: int) -> bool {
        match self {
            Comparison::Eq => x == y,
            Comparison::Neq => x != y,
            Comparison::Gt => x > y,
            Comparison::Lt => x < y,
            Comparison::Gte => x >= y,
            Comparison::Lte => x <= y,
        }
    }
}

/// The arithmetic operations.
pub ghost enum Arith {
    Add,
    Sub,
    Mul,
    Div,
}

/// The quotient of two integers, rounded towards zero.
pub open spec fn quotient(x: int, y: int) -> int
    recommends
        y != 0,
{
    if x == 0 {
        0
    } else if x > 0 && y > 0 {
        x / y
    } else if x < 0 && y < 0 {
        ((x * -1) / (y * -1))
    } else if x < 0 {
        ((x * -1) / y) * -1
    } else {
        (x / (y * -1)) * -1
    }
}

impl Arith {
    /// The exact result, where there is one.
    pub open spec fn apply(self, x: int, y: int) -> Option<int> {
        match self {
            Arith::Add => Some(x + y),
            Arith::Sub => Some(x - y),
            Arith::Mul => Some(x * y),
            Arith::Div => if y == 0 {
                None
            } else {
                Some(quotient(x, y))
            },
        }
    }
}

/// The bitwise operations on two operands.
pub ghost enum Bitwise {
    And,
    Or,
    Xor,
}

/// The directions of a shift.
pub ghost enum Shift {
    Left,
    Right,
}

/// A comparison of two unsigned integers of the given width.
pub open spec fn uint_compare(width: Width, comparison: Comparison, x: Const, y: Const) -> Option<
    Const,
> {
    match (uint_of(x), uint_of(y)) {
        (Some((wx, x, _)), Some((wy, y, _))) if wx == width && wy == width => Some(
            Const::Bool(comparison.holds(x, y)),
        ),
        _ => None,
    }
}

/// A comparison of two signed integers of the given width.
pub open spec fn sint_compare(width: Width, comparison: Comparison, x: Const, y: Const) -> Option<
    Const,
> {
    match (sint_of(x), sint_of(y)) {
        (Some((wx, x)), Some((wy, y))) if wx == width && wy == width => Some(
            Const::Bool(comparison.holds(x, y)),
        ),
        _ => None,
    }
}

/// Checked arithmetic on two unsigned integers of the given width: there is
/// no result where the exact one is out of range, or on division by zero.
pub open spec fn uint_arith(width: Width, arith: Arith, x: Const, y: Const) -> Option<Const> {
    match (uint_of(x), uint_of(y)) {
        (Some((wx, x, xs)), Some((wy, y, ys))) if wx == width && wy == width => match arith.apply(
            x,
            y,
        ) {
            Some(exact) => uint(width, exact, UIntStyle::spec_merge(xs, ys)),
            None => None,
        },
        _ => None,
    }
}

/// Checked arithmetic on two signed integers of the given width.
pub open spec fn sint_arith(width: Width, arith: Arith, x: Const, y: Const) -> Option<Const> {
    match (sint_of(x), sint_of(y)) {
        (Some((wx, x)), Some((wy, y))) if wx == width && wy == width => match arith.apply(x, y) {
            Some(exact) => sint(width, exact),
            None => None,
        },
        _ => None,
    }
}

/// A bitwise operation on two unsigned integers of the same type.
pub open spec fn uint_bitwise(width: Width, bitwise: Bitwise, x: Const, y: Const) -> Option<
    Const,
> {
    match (x, y) {
        (Const::U8(x, xs), Const::U8(y, ys)) if width == Width::W8 => Some(
            Const::U8(
                match bitwise {
                    Bitwise::And => x & y,
                    Bitwise::Or => x | y,
                    Bitwise::Xor => x ^ y,
                },
                UIntStyle::spec_merge(xs, ys),
            ),
        ),
        (Const::U16(x, xs), Const::U16(y, ys)) if width == Width::W16 => Some(
            Const::U16(
                match bitwise {
                    Bitwise::And => x & y,
                    Bitwise::Or => x | y,
                    Bitwise::Xor => x ^ y,
                },
                UIntStyle::spec_merge(xs, ys),
            ),
        ),
        (Const::U32(x, xs), Const::U32(y, ys)) if width == Width::W32 => Some(
            Const::U32(
                match bitwise {
                    Bitwise::And => x & y,
                    Bitwise::Or => x | y,
                    Bitwise::Xor => x ^ y,
                },
                UIntStyle::spec_merge(xs, ys),
            ),
        ),
        (Const::U64(x, xs), Const::U64(y, ys)) if width == Width::W64 => Some(
            Const::U64(
                match bitwise {
                    Bitwise::And => x & y,
                    Bitwise::Or => x | y,
                    Bitwise::Xor => x ^ y,
                },
                UIntStyle::spec_merge(xs, ys),
            ),
        ),
        _ => None,
    }
}

/// A shift of an unsigned integer by a number of bits that is given as an
/// eight-bit constant. There is no result where the amount is not below the
/// width. Bits shifted out are lost, and the style of the shifted number is
/// kept.
pub open spec fn uint_shift(width: Width, shift: Shift, x: Const, amount: Const) -> Option<Const> {
    match amount {
        Const::U8(n, _) if n < width.bits() => match x {
            Const::U8(x, xs) if width == Width::W8 => Some(
                Const::U8(
                    match shift {
                        Shift::Left => x << n,
                        Shift::Right => x >> n,
                    },
                    xs,
                ),
            ),
            Const::U16(x, xs) if width == Width::W16 => Some(
                Const::U16(
                    match shift {
                        Shift::Left => x << n,
                        Shift::Right => x >> n,
                    },
                    xs,
                ),
            ),
            Const::U32(x, xs) if width == Width::W32 => Some(
                Const::U32(
                    match shift {
                        Shift::Left => x << n,
                        Shift::Right => x >> n,
                    },
                    xs,
                ),
            ),
            Const::U64(x, xs) if width == Width::W64 => Some(
                Const::U64(
                    match shift {
                        Shift::Left => x << n,
                        Shift::Right => x >> n,
                    },
                    xs,
                ),
            ),
            _ => None,
        },
        _ => None,
    }
}

/// The complement of an unsigned integer. The style of an eight-bit number
/// is kept; a wider one becomes decimal.
pub open spec fn uint_not(width: Width, x: Const) -> Option<Const> {
    match x {
        Const::U8(x, style) if width == Width::W8 => Some(Const::U8(!x, style)),
        Const::U16(x, _) if width == Width::W16 => Some(Const::U16(!x, UIntStyle::Decimal)),
        Const::U32(x, _) if width == Width::W32 => Some(Const::U32(!x, UIntStyle::Decimal)),
        Const::U64(x, _) if width == Width::W64 => Some(Const::U64(!x, UIntStyle::Decimal)),
        _ => None,
    }
}

/// The negation of a signed integer, where it is in range.
pub open spec fn sint_neg(width: Width, x: Const) -> Option<Const> {
    match sint_of(x) {
        Some((wx, x)) if wx == width => sint(width, -x),
        _ => None,
    }
}

/// The absolute value of a signed integer as a signed integer, where it is
/// in range.
pub open spec fn sint_abs(width: Width, x: Const) -> Option<Const> {
    match sint_of(x) {
        Some((wx, x)) if wx == width => sint(
            width,
            if x < 0 {
                -x
            } else {
                x
            },
        ),
        _ => None,
    }
}

/// The absolute value of a signed integer as an unsigned integer of the
/// same width.
pub open spec fn sint_uabs(width: Width, x: Const) -> Option<Const> {
    match sint_of(x) {
        Some((wx, x)) if wx == width => uint(
            width,
            if x < 0 {
                -x
            } else {
                x
            },
            UIntStyle::Decimal,
        ),
        _ => None,
    }
}

/// A position moved forward by an unsigned integer of the given width, where
/// the result fits the machine's word.
pub open spec fn pos_add(width: Width, x: Const, y: Const) -> Option<Const> {
    match (x, uint_of(y)) {
        (Const::Pos(x), Some((wy, y, _))) if wy == width => if x + y <= usize::MAX {
            Some(Const::Pos((x + y) as usize))
        } else {
            None
        },
        _ => None,
    }
}

pub open spec fn bool_binary(prim: Prim, x: Const, y: Const) -> Option<Const> {
    match (x, y) {
        (Const::Bool(x), Const::Bool(y)) => match prim {
            Prim::BoolEq => Some(Const::Bool(x == y)),
            Prim::BoolNeq => Some(Const::Bool(x != y)),
            Prim::BoolAnd => Some(Const::Bool(x && y)),
            Prim::BoolOr => Some(Const::Bool(x || y)),
            Prim::BoolXor => Some(Const::Bool(x != y)),
            _ => None,
        },
        _ => None,
    }
}

/// What a primitive of one argument computes on a constant.
pub open spec fn fold_unary(prim: Prim, x: Const) -> Option<Const> {
    match prim {
        Prim::BoolNot => match x {
            Const::Bool(x) => Some(Const::Bool(!x)),
            _ => None,
        },
        Prim::U8Not => uint_not(Width::W8, x),
        Prim::U16Not => uint_not(Width::W16, x),
        Prim::U32Not => uint_not(Width::W32, x),
        Prim::U64Not => uint_not(Width::W64, x),
        Prim::S8Neg => sint_neg(Width::W8, x),
        Prim::S16Neg => sint_neg(Width::W16, x),
        Prim::S32Neg => sint_neg(Width::W32, x),
        Prim::S64Neg => sint_neg(Width::W64, x),
        Prim::S8Abs => sint_abs(Width::W8, x),
        Prim::S16Abs => sint_abs(Width::W16, x),
        Prim::S32Abs => sint_abs(Width::W32, x),
        Prim::S64Abs => sint_abs(Width::W64, x),
        Prim::S8UAbs => sint_uabs(Width::W8, x),
        Prim::S16UAbs => sint_uabs(Width::W16, x),
        Prim::S32UAbs => sint_uabs(Width::W32, x),
        Prim::S64UAbs => sint_uabs(Width::W64, x),
        _ => None,
    }
}

/// What a primitive of two arguments computes on two constants.
pub open spec fn fold_binary(prim: Prim, x: Const, y: Const) -> Option<Const> {
    match prim {
        Prim::BoolEq | Prim::BoolNeq | Prim::BoolAnd | Prim::BoolOr | Prim::BoolXor => bool_binary(prim, x, y),
        Prim::U8Eq => uint_compare(Width::W8, Comparison::Eq, x, y),
        Prim::U8Neq => uint_compare(Width::W8, Comparison::Neq, x, y),
        Prim::U8Gt => uint_compare(Width::W8, Comparison::Gt, x, y),
        Prim::U8Lt => uint_compare(Width::W8, Comparison::Lt, x, y),
        Prim::U8Gte => uint_compare(Width::W8, Comparison::Gte, x, y),
        Prim::U8Lte => uint_compare(Width::W8, Comparison::Lte, x, y),
        Prim::U8Add => uint_arith(Width::W8, Arith::Add, x, y),
        Prim::U8Sub => uint_arith(Width::W8, Arith::Sub, x, y),
        Prim::U8Mul => uint_arith(Width::W8, Arith::Mul, x, y),
        Prim::U8Div => uint_arith(Width::W8, Arith::Div, x, y),
        Prim::U8Shl => uint_shift(Width::W8, Shift::Left, x, y),
        Prim::U8Shr => uint_shift(Width::W8, Shift::Right, x, y),
        Prim::U8And => uint_bitwise(Width::W8, Bitwise::And, x, y),
        Prim::U8Or => uint_bitwise(Width::W8, Bitwise::Or, x, y),
        Prim::U8Xor => uint_bitwise(Width::W8, Bitwise::Xor, x, y),
        Prim::U16Eq => uint_compare(Width::W16, Comparison::Eq, x, y),
        Prim::U16Neq => uint_compare(Width::W16, Comparison::Neq, x, y),
        Prim::U16Gt => uint_compare(Width::W16, Comparison::Gt, x, y),
        Prim::U16Lt => uint_compare(Width::W16, Comparison::Lt, x, y),
        Prim::U16Gte => uint_compare(Width::W16, Comparison::Gte, x, y),
        Prim::U16Lte => uint_compare(Width::W16, Comparison::Lte, x, y),
        Prim::U16Add => uint_arith(Width::W16, Arith::Add, x, y),
        Prim::U16Sub => uint_arith(Width::W16, Arith::Sub, x, y),
        Prim::U16Mul => uint_arith(Width::W16, Arith::Mul, x, y),
        Prim::U16Div => uint_arith(Width::W16, Arith::Div, x, y),
        Prim::U16Shl => uint_shift(Width::W16, Shift::Left, x, y),
        Prim::U16Shr => uint_shift(Width::W16, Shift::Right, x, y),
        Prim::U16And => uint_bitwise(Width::W16, Bitwise::And, x, y),
        Prim::U16Or => uint_bitwise(Width::W16, Bitwise::Or, x, y),
        Prim::U16Xor => uint_bitwise(Width::W16, Bitwise::Xor, x, y),
        Prim::U32Eq => uint_compare(Width::W32, Comparison::Eq, x, y),
        Prim::U32Neq => uint_compare(Width::W32, Comparison::Neq, x, y),
        Prim::U32Gt => uint_compare(Width::W32, Comparison::Gt, x, y),
        Prim::U32Lt => uint_compare(Width::W32, Comparison::Lt, x, y),
        Prim::U32Gte => uint_compare(Width::W32, Comparison::Gte, x, y),
        Prim::U32Lte => uint_compare(Width::W32, Comparison::Lte, x, y),
        Prim::U32Add => uint_arith(Width::W32, Arith::Add, x, y),
        Prim::U32Sub => uint_arith(Width::W32, Arith::Sub, x, y),
        Prim::U32Mul => uint_arith(Width::W32, Arith::Mul, x, y),
        Prim::U32Div => uint_arith(Width::W32, Arith::Div, x, y),
        Prim::U32Shl => uint_shift(Width::W32, Shift::Left, x, y),
        Prim::U32Shr => uint_shift(Width::W32, Shift::Right, x, y),
        Prim::U32And => uint_bitwise(Width::W32, Bitwise::And, x, y),
        Prim::U32Or => uint_bitwise(Width::W32, Bitwise::Or, x, y),
        Prim::U32Xor => uint_bitwise(Width::W32, Bitwise::Xor, x, y),
        Prim::U64Eq => uint_compare(Width::W64, Comparison::Eq, x, y),
        Prim::U64Neq => uint_compare(Width::W64, Comparison::Neq, x, y),
        Prim::U64Gt => uint_compare(Width::W64, Comparison::Gt, x, y),
        Prim::U64Lt => uint_compare(Width::W64, Comparison::Lt, x, y),
        Prim::U64Gte => uint_compare(Width::W64, Comparison::Gte, x, y),
        Prim::U64Lte => uint_compare(Width::W64, Comparison::Lte, x, y),
        Prim::U64Add => uint_arith(Width::W64, Arith::Add, x, y),
        Prim::U64Sub => uint_arith(Width::W64, Arith::Sub, x, y),
        Prim::U64Mul => uint_arith(Width::W64, Arith::Mul, x, y),
        Prim::U64Div => uint_arith(Width::W64, Arith::Div, x, y),
        Prim::U64Shl => uint_shift(Width::W64, Shift::Left, x, y),
        Prim::U64Shr => uint_shift(Width::W64, Shift::Right, x, y),
        Prim::U64And => uint_bitwise(Width::W64, Bitwise::And, x, y),
        Prim::U64Or => uint_bitwise(Width::W64, Bitwise::Or, x, y),
        Prim::U64Xor => uint_bitwise(Width::W64, Bitwise::Xor, x, y),
        Prim::S8Eq => sint_compare(Width::W8, Comparison::Eq, x, y),
        Prim::S8Neq => sint_compare(Width::W8, Comparison::Neq, x, y),
        Prim::S8Gt => sint_compare(Width::W8, Comparison::Gt, x, y),
        Prim::S8Lt => sint_compare(Width::W8, Comparison::Lt, x, y),
        Prim::S8Gte => sint_compare(Width::W8, Comparison::Gte, x, y),
        Prim::S8Lte => sint_compare(Width::W8, Comparison::Lte, x, y),
        Prim::S8Add => sint_arith(Width::W8, Arith::Add, x, y),
        Prim::S8Sub => sint_arith(Width::W8, Arith::Sub, x, y),
        Prim::S8Mul => sint_arith(Width::W8, Arith::Mul, x, y),
        Prim::S8Div => sint_arith(Width::W8, Arith::Div, x, y),
        Prim::S16Eq => sint_compare(Width::W16, Comparison::Eq, x, y),
        Prim::S16Neq => sint_compare(Width::W16, Comparison::Neq, x, y),
        Prim::S16Gt => sint_compare(Width::W16, Comparison::Gt, x, y),
        Prim::S16Lt => sint_compare(Width::W16, Comparison::Lt, x, y),
        Prim::S16Gte => sint_compare(Width::W16, Comparison::Gte, x, y),
        Prim::S16Lte => sint_compare(Width::W16, Comparison::Lte, x, y),
        Prim::S16Add => sint_arith(Width::W16, Arith::Add, x, y),
        Prim::S16Sub => sint_arith(Width::W16, Arith::Sub, x, y),
        Prim::S16Mul => sint_arith(Width::W16, Arith::Mul, x, y),
        Prim::S16Div => sint_arith(Width::W16, Arith::Div, x, y),
        Prim::S32Eq => sint_compare(Width::W32, Comparison::Eq, x, y),
        Prim::S32Neq => sint_compare(Width::W32, Comparison::Neq, x, y),
        Prim::S32Gt => sint_compare(Width::W32, Comparison::Gt, x, y),
        Prim::S32Lt => sint_compare(Width::W32, Comparison::Lt, x, y),
        Prim::S32Gte => sint_compare(Width::W32, Comparison::Gte, x, y),
        Prim::S32Lte => sint_compare(Width::W32, Comparison::Lte, x, y),
        Prim::S32Add => sint_arith(Width::W32, Arith::Add, x, y),
        Prim::S32Sub => sint_arith(Width::W32, Arith::Sub, x, y),
        Prim::S32Mul => sint_arith(Width::W32, Arith::Mul, x, y),
        Prim::S32Div => sint_arith(Width::W32, Arith::Div, x, y),
        Prim::S64Eq => sint_compare(Width::W64, Comparison::Eq, x, y),
        Prim::S64Neq => sint_compare(Width::W64, Comparison::Neq, x, y),
        Prim::S64Gt => sint_compare(Width::W64, Comparison::Gt, x, y),
        Prim::S64Lt => sint_compare(Width::W64, Comparison::Lt, x, y),
        Prim::S64Gte => sint_compare(Width::W64, Comparison::Gte, x, y),
        Prim::S64Lte => sint_compare(Width::W64, Comparison::Lte, x, y),
        Prim::S64Add => sint_arith(Width::W64, Arith::Add, x, y),
        Prim::S64Sub => sint_arith(Width::W64, Arith::Sub, x, y),
        Prim::S64Mul => sint_arith(Width::W64, Arith::Mul, x, y),
        Prim::S64Div => sint_arith(Width::W64, Arith::Div, x, y),
        Prim::PosAddU8 => pos_add(Width::W8, x, y),
        Prim::PosAddU16 => pos_add(Width::W16, x, y),
        Prim::PosAddU32 => pos_add(Width::W32, x, y),
        Prim::PosAddU64 => pos_add(Width::W64, x, y),
        _ => None,
    }
}

/// The index that addresses `level` in an environment of `len` bindings.
pub open spec fn level_to_index(len: nat, level: Level) -> Option<Index> {
    if level.0 < len {
        Some(Index((len - level.0 - 1) as u16))
    } else {
        None
    }
}

/// Quotes a value back into a term, in an environment of `len` bindings:
/// the value is forced, and then read back by its shape, with a fresh
/// variable under each binder. With `unfold` set, the solution of a
/// metavariable is quoted in place of the variable.
pub open spec fn quote(fuel: nat, tables: TablesV, len: nat, unfold: bool, value: ArcValueV) -> Result<
    TermV,
    Stop,
>
    decreases fuel, 0nat, 0nat,
{
    if fuel == 0 {
        Err(Stop::Limit)
    } else {
        match force((fuel - 1) as nat, tables, value) {
            Ok(value) => quote_forced((fuel - 1) as nat, tables, len, unfold, value),
            Err(stop) => Err(stop),
        }
    }
}

/// Quotes a value that has been forced.
pub open spec fn quote_forced(
    fuel: nat,
    tables: TablesV,
    len: nat,
    unfold: bool,
    value: ArcValueV,
) -> Result<TermV, Stop>
    decreases fuel, 5nat, 0nat,
{
    let span = value.span;
    match value.value {
        ValueV::Stuck(head, spine) => match quote_head(
            fuel,
            tables,
            len,
            unfold,
            span,
            head,
        ) {
            Ok(head) => quote_spine(fuel, tables, len, unfold, span, head, spine, 0),
            Err(stop) => Err(stop),
        },
        ValueV::Universe => Ok(TermV::Universe(span)),
        ValueV::FunType(name, param_type, body_type) => match quote(
            fuel,
            tables,
            len,
            unfold,
            *param_type,
        ) {
            Ok(param) => match quote_closure(fuel, tables, len, unfold, body_type) {
                Ok(body) => Ok(
                    TermV::FunType(span, name, Box::new(param), Box::new(body)),
                ),
                Err(stop) => Err(stop),
            },
            Err(stop) => Err(stop),
        },
        ValueV::FunLit(name, body_expr) => match quote_closure(
            fuel,
            tables,
            len,
            unfold,
            body_expr,
        ) {
            Ok(body) => Ok(TermV::FunLit(span, name, Box::new(body))),
            Err(stop) => Err(stop),
        },
        ValueV::RecordType(labels, types) => match quote_telescope(
            fuel,
            tables,
            len,
            unfold,
            types,
        ) {
            Ok(types) => Ok(TermV::RecordType(span, labels, types)),
            Err(stop) => Err(stop),
        },
        ValueV::RecordLit(labels, exprs) => match quote_all(
            fuel,
            tables,
            len,
            unfold,
            exprs,
            0,
        ) {
            Ok(exprs) => Ok(TermV::RecordLit(span, labels, exprs)),
            Err(stop) => Err(stop),
        },
        ValueV::ArrayLit(exprs) => match quote_all(fuel, tables, len, unfold, exprs, 0) {
            Ok(exprs) => Ok(TermV::ArrayLit(span, exprs)),
            Err(stop) => Err(stop),
        },
        ValueV::FormatRecord(labels, formats) => match quote_telescope(
            fuel,
            tables,
            len,
            unfold,
            formats,
        ) {
            Ok(formats) => Ok(TermV::FormatRecord(span, labels, formats)),
            Err(stop) => Err(stop),
        },
        ValueV::FormatCond(label, format, cond) => match quote(
            fuel,
            tables,
            len,
            unfold,
            *format,
        ) {
            Ok(format) => match quote_closure(fuel, tables, len, unfold, cond) {
                Ok(cond) => Ok(
                    TermV::FormatCond(span, label, Box::new(format), Box::new(cond)),
                ),
                Err(stop) => Err(stop),
            },
            Err(stop) => Err(stop),
        },
        ValueV::FormatOverlap(labels, formats) => match quote_telescope(
            fuel,
            tables,
            len,
            unfold,
            formats,
        ) {
            Ok(formats) => Ok(TermV::FormatOverlap(span, labels, formats)),
            Err(stop) => Err(stop),
        },
        ValueV::ConstLit(constant) => Ok(TermV::ConstLit(span, constant)),
    }
}

/// Quotes the head of a stuck value.
pub open spec fn quote_head(
    fuel: nat,
    tables: TablesV,
    len: nat,
    unfold: bool,
    span: Span,
    head: Head,
) -> Result<TermV, Stop>
    decreases fuel, 1nat, 0nat,
{
    match head {
        Head::Prim(prim) => Ok(TermV::Prim(span, prim)),
        Head::LocalVar(var) => match level_to_index(len, var) {
            Some(index) => Ok(TermV::LocalVar(span, index)),
            None => Err(Stop::Error(Error::UnboundLocalVar)),
        },
        Head::MetaVar(var) => if unfold {
            if var.0 < tables.metas.len() {
                match tables.metas[var.0 as int] {
                    Some(value) => quote(fuel, tables, len, unfold, value),
                    None => Ok(TermV::MetaVar(span, var)),
                }
            } else {
                Err(Stop::Error(Error::UnboundMetaVar))
            }
        } else {
            Ok(TermV::MetaVar(span, var))
        },
    }
}

/// Quotes the eliminations of a spine from position `from` on, around the
/// term that the head and the eliminations before have given.
pub open spec fn quote_spine(
    fuel: nat,
    tables: TablesV,
    len: nat,
    unfold: bool,
    span: Span,
    head: TermV,
    spine: Seq<ElimV>,
    from: int,
) -> Result<TermV, Stop>
    decreases fuel, 4nat, spine.len() - from,
{
    if from < 0 || from >= spine.len() {
        Ok(head)
    } else {
        let next = match spine[from] {
            ElimV::FunApp(arg) => match quote(fuel, tables, len, unfold, arg) {
                Ok(arg) => Ok(TermV::FunApp(span, Box::new(head), Box::new(arg))),
                Err(stop) => Err(stop),
            },
            ElimV::RecordProj(label) => Ok(TermV::RecordProj(span, Box::new(head), label)),
            ElimV::ConstMatch(branches) => match quote_branches(
                fuel,
                tables,
                len,
                unfold,
                branches,
            ) {
                Ok((branches, default_expr)) => Ok(
                    TermV::ConstMatch(
                        span,
                        Box::new(head),
                        branches,
                        match default_expr {
                            Some(expr) => Some(Box::new(expr)),
                            None => None,
                        },
                    ),
                ),
                Err(stop) => Err(stop),
            },
        };
        match next {
            Ok(next) => quote_spine(fuel, tables, len, unfold, span, next, spine, from + 1),
            Err(stop) => Err(stop),
        }
    }
}

/// Quotes the branches of a match: the body of each branch, and the default
/// under its binder.
pub open spec fn quote_branches(
    fuel: nat,
    tables: TablesV,
    len: nat,
    unfold: bool,
    branches: BranchesV,
) -> Result<(Seq<(Const, TermV)>, Option<TermV>), Stop>
    decreases fuel, 2nat, branches.pattern_branches.len(),
{
    match split_branches(fuel, tables, branches) {
        Ok(SplitBranchesV::Branch((constant, body), next)) => match quote(
            fuel,
            tables,
            len,
            unfold,
            body,
        ) {
            Ok(body) => match quote_branches(fuel, tables, len, unfold, next) {
                Ok((rest, default_expr)) => Ok((seq![(constant, body)] + rest, default_expr)),
                Err(stop) => Err(stop),
            },
            Err(stop) => Err(stop),
        },
        Ok(SplitBranchesV::Default(default_expr)) => match quote_closure(
            fuel,
            tables,
            len,
            unfold,
            default_expr,
        ) {
            Ok(default_expr) => Ok((Seq::empty(), Some(default_expr))),
            Err(stop) => Err(stop),
        },
        Ok(SplitBranchesV::End) => Ok((Seq::empty(), None)),
        Err(stop) => Err(stop),
    }
}

/// Quotes a closure: its body is evaluated with a fresh variable, and the
/// result is quoted under one more binding.
pub open spec fn quote_closure(
    fuel: nat,
    tables: TablesV,
    len: nat,
    unfold: bool,
    closure: ClosureV,
) -> Result<TermV, Stop>
    decreases fuel, 1nat, 0nat,
{
    match apply_closure(fuel, tables, closure, fresh_var(len)) {
        Ok(value) => if len < max_len() {
            quote(fuel, tables, len + 1, unfold, value)
        } else {
            Err(Stop::Limit)
        },
        Err(stop) => Err(stop),
    }
}

/// Quotes a telescope: each value is quoted, with a fresh variable bound
/// for it in the values after it.
pub open spec fn quote_telescope(
    fuel: nat,
    tables: TablesV,
    len: nat,
    unfold: bool,
    telescope: TelescopeV,
) -> Result<Seq<TermV>, Stop>
    decreases fuel, 1nat, telescope.terms.len(),
{
    match split_telescope(fuel, tables, telescope) {
        Ok(Some((value, rest))) => match quote(fuel, tables, len, unfold, value) {
            Ok(term) => if len < max_len() {
                match quote_telescope(
                    fuel,
                    tables,
                    len + 1,
                    unfold,
                    resume_telescope(rest, fresh_var(len)),
                ) {
                    Ok(terms) => Ok(seq![term] + terms),
                    Err(stop) => Err(stop),
                }
            } else {
                Err(Stop::Limit)
            },
            Err(stop) => Err(stop),
        },
        Ok(None) => Ok(Seq::empty()),
        Err(stop) => Err(stop),
    }
}

/// Quotes the values from position `from` on, in order.
pub open spec fn quote_all(
    fuel: nat,
    tables: TablesV,
    len: nat,
    unfold: bool,
    values: Seq<ArcValueV>,
    from: int,
) -> Result<Seq<TermV>, Stop>
    decreases fuel, 1nat, values.len() - from,
{
    if from < 0 || from >= values.len() {
        Ok(Seq::empty())
    } else {
        match quote(fuel, tables, len, unfold, values[from]) {
            Ok(term) => match quote_all(fuel, tables, len, unfold, values, from + 1) {
                Ok(terms) => Ok(seq![term] + terms),
                Err(stop) => Err(stop),
            },
            Err(stop) => Err(stop),
        }
    }
}

/// Normalises a term: it is evaluated, and the value is quoted.
pub open spec fn normalise(fuel: nat, tables: TablesV, locals: Seq<ArcValueV>, term: TermV) -> Result<
    TermV,
    Stop,
> {
    match eval(fuel, tables, locals, term) {
        Ok(value) => quote(fuel, tables, locals.len(), false, value),
        Err(stop) => Err(stop),
    }
}

/// The second answer where the first is yes; the first otherwise. What
/// stops the first stops both.
pub open spec fn and_also(first: Result<bool, Stop>, second: Result<bool, Stop>) -> Result<
    bool,
    Stop,
> {
    match first {
        Ok(true) => second,
        Ok(false) => Ok(false),
        Err(stop) => Err(stop),
    }
}

/// Whether a value is the sentinel that stands for an error that has been
/// reported, applied to anything.
pub open spec fn is_reported_error(value: ArcValueV) -> bool {
    value.value matches ValueV::Stuck(Head::Prim(Prim::ReportedError), _)
}

/// Whether two values are computationally equal, in an environment of
/// `len` bindings. Both values are forced first.
pub open spec fn is_equal(fuel: nat, tables: TablesV, len: nat, value0: ArcValueV, value1: ArcValueV) -> Result<
    bool,
    Stop,
>
    decreases fuel, 0nat, 0nat,
{
    if fuel == 0 {
        Err(Stop::Limit)
    } else {
        match force((fuel - 1) as nat, tables, value0) {
            Ok(value0) => match force((fuel - 1) as nat, tables, value1) {
                Ok(value1) => is_equal_forced((fuel - 1) as nat, tables, len, value0, value1),
                Err(stop) => Err(stop),
            },
            Err(stop) => Err(stop),
        }
    }
}

/// Whether two forced values are computationally equal.
///
/// A reported error is equal to everything. Two stuck values are equal when
/// their heads are, and their spines are pointwise. A function literal is
/// equal to another value when its body is equal to that value applied to
/// the parameter, and a record literal when each field is equal to the
/// projection of that field from the other value. Otherwise two values are
/// equal when they are of the same shape and their parts are equal, the
/// parts under a binder with a fresh variable in the binder's place.
pub open spec fn is_equal_forced(
    fuel: nat,
    tables: TablesV,
    len: nat,
    value0: ArcValueV,
    value1: ArcValueV,
) -> Result<bool, Stop>
    decreases fuel, 6nat, 0nat,
{
    if is_reported_error(value0) || is_reported_error(value1) {
        Ok(true)
    } else {
        match (value0.value, value1.value) {
            (ValueV::Stuck(head0, spine0), ValueV::Stuck(head1, spine1)) => if head0 == head1
                && spine0.len() == spine1.len() {
                is_equal_spines(fuel, tables, len, spine0, spine1, 0)
            } else {
                Ok(false)
            },
            (ValueV::Universe, ValueV::Universe) => Ok(true),
            (
                ValueV::FunType(_, param_type0, body_type0),
                ValueV::FunType(_, param_type1, body_type1),
            ) => and_also(
                is_equal(fuel, tables, len, *param_type0, *param_type1),
                is_equal_closures(fuel, tables, len, body_type0, body_type1),
            ),
            (ValueV::FunLit(_, body_expr0), ValueV::FunLit(_, body_expr1)) => is_equal_closures(
                fuel,
                tables,
                len,
                body_expr0,
                body_expr1,
            ),
            (ValueV::FunLit(_, body_expr), _) => is_equal_fun_lit(
                fuel,
                tables,
                len,
                body_expr,
                value1,
            ),
            (_, ValueV::FunLit(_, body_expr)) => is_equal_fun_lit(
                fuel,
                tables,
                len,
                body_expr,
                value0,
            ),
            (ValueV::RecordType(labels0, types0), ValueV::RecordType(labels1, types1)) => if labels0
                == labels1 {
                is_equal_telescopes(fuel, tables, len, types0, types1)
            } else {
                Ok(false)
            },
            (ValueV::RecordLit(labels0, exprs0), ValueV::RecordLit(labels1, exprs1)) => if labels0
                == labels1 && exprs0.len() == exprs1.len() {
                is_equal_all(fuel, tables, len, exprs0, exprs1, 0)
            } else {
                Ok(false)
            },
            (ValueV::RecordLit(labels, exprs), _) => is_equal_record_lit(
                fuel,
                tables,
                len,
                labels,
                exprs,
                value1,
                0,
            ),
            (_, ValueV::RecordLit(labels, exprs)) => is_equal_record_lit(
                fuel,
                tables,
                len,
                labels,
                exprs,
                value0,
                0,
            ),
            (ValueV::ArrayLit(exprs0), ValueV::ArrayLit(exprs1)) => if exprs0.len()
                == exprs1.len() {
                is_equal_all(fuel, tables, len, exprs0, exprs1, 0)
            } else {
                Ok(false)
            },
            (
                ValueV::FormatRecord(labels0, formats0),
                ValueV::FormatRecord(labels1, formats1),
            ) => if labels0 == labels1 {
                is_equal_telescopes(fuel, tables, len, formats0, formats1)
            } else {
                Ok(false)
            },
            (
                ValueV::FormatOverlap(labels0, formats0),
                ValueV::FormatOverlap(labels1, formats1),
            ) => if labels0 == labels1 {
                is_equal_telescopes(fuel, tables, len, formats0, formats1)
            } else {
                Ok(false)
            },
            (
                ValueV::FormatCond(label0, format0, cond0),
                ValueV::FormatCond(label1, format1, cond1),
            ) => if label0 == label1 {
                and_also(
                    is_equal(fuel, tables, len, *format0, *format1),
                    is_equal_closures(fuel, tables, len, cond0, cond1),
                )
            } else {
                Ok(false)
            },
            (ValueV::ConstLit(const0), ValueV::ConstLit(const1)) => Ok(const0.same(const1)),
            (_, _) => Ok(false),
        }
    }
}

/// Whether two eliminations are equal.
pub open spec fn is_equal_elims(
    fuel: nat,
    tables: TablesV,
    len: nat,
    elim0: ElimV,
    elim1: ElimV,
) -> Result<bool, Stop>
    decreases fuel, 4nat, 0nat,
{
    match (elim0, elim1) {
        (ElimV::FunApp(expr0), ElimV::FunApp(expr1)) => is_equal(fuel, tables, len, expr0, expr1),
        (ElimV::RecordProj(label0), ElimV::RecordProj(label1)) => Ok(label0 == label1),
        (ElimV::ConstMatch(branches0), ElimV::ConstMatch(branches1)) => is_equal_branches(
            fuel,
            tables,
            len,
            branches0,
            branches1,
        ),
        (_, _) => Ok(false),
    }
}

/// Whether two spines of one length are pointwise equal from position
/// `from` on.
pub open spec fn is_equal_spines(
    fuel: nat,
    tables: TablesV,
    len: nat,
    spine0: Seq<ElimV>,
    spine1: Seq<ElimV>,
    from: int,
) -> Result<bool, Stop>
    decreases fuel, 5nat, spine0.len() - from,
{
    if from < 0 || from >= spine0.len() || from >= spine1.len() {
        Ok(true)
    } else {
        and_also(
            is_equal_elims(fuel, tables, len, spine0[from], spine1[from]),
            is_equal_spines(fuel, tables, len, spine0, spine1, from + 1),
        )
    }
}

/// Whether two sequences of values of one length are pointwise equal from
/// position `from` on.
pub open spec fn is_equal_all(
    fuel: nat,
    tables: TablesV,
    len: nat,
    exprs0: Seq<ArcValueV>,
    exprs1: Seq<ArcValueV>,
    from: int,
) -> Result<bool, Stop>
    decreases fuel, 1nat, exprs0.len() - from,
{
    if from < 0 || from >= exprs0.len() || from >= exprs1.len() {
        Ok(true)
    } else {
        and_also(
            is_equal(fuel, tables, len, exprs0[from], exprs1[from]),
            is_equal_all(fuel, tables, len, exprs0, exprs1, from + 1),
        )
    }
}

/// Whether two closures are equal: whether their bodies are, with the same
/// fresh variable bound in both.
pub open spec fn is_equal_closures(
    fuel: nat,
    tables: TablesV,
    len: nat,
    closure0: ClosureV,
    closure1: ClosureV,
) -> Result<bool, Stop>
    decreases fuel, 2nat, 0nat,
{
    match apply_closure(fuel, tables, closure0, fresh_var(len)) {
        Ok(value0) => match apply_closure(fuel, tables, closure1, fresh_var(len)) {
            Ok(value1) => if len < max_len() {
                is_equal(fuel, tables, len + 1, value0, value1)
            } else {
                Err(Stop::Limit)
            },
            Err(stop) => Err(stop),
        },
        Err(stop) => Err(stop),
    }
}

/// Whether two telescopes are equal: whether they are of one length, and
/// their values are pairwise equal, with the same fresh variable bound for
/// each pair in the pairs after it.
pub open spec fn is_equal_telescopes(
    fuel: nat,
    tables: TablesV,
    len: nat,
    telescope0: TelescopeV,
    telescope1: TelescopeV,
) -> Result<bool, Stop>
    decreases fuel, 2nat, 0nat,
{
    if telescope0.terms.len() != telescope1.terms.len() {
        Ok(false)
    } else {
        is_equal_values(fuel, tables, len, telescope0, telescope1)
    }
}

/// Whether the values of two telescopes are pairwise equal, as far as both
/// have values.
pub open spec fn is_equal_values(
    fuel: nat,
    tables: TablesV,
    len: nat,
    telescope0: TelescopeV,
    telescope1: TelescopeV,
) -> Result<bool, Stop>
    decreases fuel, 1nat, telescope0.terms.len(),
{
    match split_telescope(fuel, tables, telescope0) {
        Ok(split0) => match split_telescope(fuel, tables, telescope1) {
            Ok(split1) => match (split0, split1) {
                (Some((value0, rest0)), Some((value1, rest1))) => match is_equal(
                    fuel,
                    tables,
                    len,
                    value0,
                    value1,
                ) {
                    Ok(true) => if len < max_len() {
                        is_equal_values(
                            fuel,
                            tables,
                            len + 1,
                            resume_telescope(rest0, fresh_var(len)),
                            resume_telescope(rest1, fresh_var(len)),
                        )
                    } else {
                        Err(Stop::Limit)
                    },
                    Ok(false) => Ok(false),
                    Err(stop) => Err(stop),
                },
                (_, _) => Ok(true),
            },
            Err(stop) => Err(stop),
        },
        Err(stop) => Err(stop),
    }
}

/// Whether the branches of two matches are equal: whether the patterns are
/// the same constants in the same order with equal bodies, and the defaults
/// are equal or both are missing.
pub open spec fn is_equal_branches(
    fuel: nat,
    tables: TablesV,
    len: nat,
    branches0: BranchesV,
    branches1: BranchesV,
) -> Result<bool, Stop>
    decreases fuel, 3nat, branches0.pattern_branches.len(),
{
    match split_branches(fuel, tables, branches0) {
        Ok(split0) => match split_branches(fuel, tables, branches1) {
            Ok(split1) => match (split0, split1) {
                (
                    SplitBranchesV::Branch((const0, body0), next0),
                    SplitBranchesV::Branch((const1, body1), next1),
                ) => if const0.same(const1) {
                    and_also(
                        is_equal(fuel, tables, len, body0, body1),
                        is_equal_branches(fuel, tables, len, next0, next1),
                    )
                } else {
                    Ok(false)
                },
                (SplitBranchesV::Default(default0), SplitBranchesV::Default(default1)) => {
                    is_equal_closures(fuel, tables, len, default0, default1)
                },
                (SplitBranchesV::End, SplitBranchesV::End) => Ok(true),
                (_, _) => Ok(false),
            },
            Err(stop) => Err(stop),
        },
        Err(stop) => Err(stop),
    }
}

/// Whether a function literal is equal to a value that is none: whether
/// the body of the literal is equal to the value applied to the parameter.
pub open spec fn is_equal_fun_lit(
    fuel: nat,
    tables: TablesV,
    len: nat,
    body_expr: ClosureV,
    value: ArcValueV,
) -> Result<bool, Stop>
    decreases fuel, 1nat, 0nat,
{
    match fun_app(fuel, tables, value, fresh_var(len)) {
        Ok(value) => match apply_closure(fuel, tables, body_expr, fresh_var(len)) {
            Ok(body) => if len < max_len() {
                is_equal(fuel, tables, len + 1, body, value)
            } else {
                Err(Stop::Limit)
            },
            Err(stop) => Err(stop),
        },
        Err(stop) => Err(stop),
    }
}

/// Whether a record literal is equal to a value that is none: whether each
/// field from position `from` on is equal to the projection of its label
/// from the value.
pub open spec fn is_equal_record_lit(
    fuel: nat,
    tables: TablesV,
    len: nat,
    labels: Seq<StringId>,
    exprs: Seq<ArcValueV>,
    value: ArcValueV,
    from: int,
) -> Result<bool, Stop>
    decreases fuel, 1nat, labels.len() - from,
{
    if from < 0 || from >= labels.len() || from >= exprs.len() {
        Ok(true)
    } else {
        match record_proj(value, labels[from]) {
            Ok(field) => and_also(
                is_equal(fuel, tables, len, exprs[from], field),
                is_equal_record_lit(fuel, tables, len, labels, exprs, value, from + 1),
            ),
            Err(stop) => Err(stop),
        }
    }
}

/// The model of a term whose metavariables have been unfolded, or of the
/// value that a spine with a solved metavariable at its head has reduced
/// to.
pub ghost enum TermOrValueV {
    Value(ArcValueV),
    Term(TermV),
}

/// The solution of a metavariable.
pub open spec fn meta_solution(tables: TablesV, var: Level) -> Result<Option<ArcValueV>, Stop> {
    if var.0 < tables.metas.len() {
        Ok(tables.metas[var.0 as int])
    } else {
        Err(Stop::Error(Error::UnboundMetaVar))
    }
}

/// The term of a value in an environment of the given local values.
pub open spec fn quote_in(fuel: nat, tables: TablesV, locals: Seq<ArcValueV>, value: Result<
    ArcValueV,
    Stop,
>) -> Result<TermV, Stop> {
    match value {
        Ok(value) => quote(fuel, tables, locals.len(), false, value),
        Err(stop) => Err(stop),
    }
}

/// Unfolds the solutions of the metavariables in a term: a metavariable
/// that has a solution gives way to the quoted solution, and a spine of
/// eliminations with a solved metavariable at its head to its quoted
/// value. Where every metavariable has a solution, the result holds none.
pub open spec fn unfold_metas(fuel: nat, tables: TablesV, locals: Seq<ArcValueV>, term: TermV) -> Result<
    TermV,
    Stop,
>
    decreases fuel, 0nat, 0nat,
{
    if fuel == 0 {
        Err(Stop::Limit)
    } else {
        let f = (fuel - 1) as nat;
        match term {
            TermV::ItemVar(span, var) => Ok(TermV::ItemVar(span, var)),
            TermV::LocalVar(span, var) => Ok(TermV::LocalVar(span, var)),
            // These might be meta-headed eliminations
            TermV::MetaVar(_, _) | TermV::FunApp(_, _, _) | TermV::RecordProj(_, _, _)
            | TermV::ConstMatch(_, _, _, _) => match unfold_spine_metas(f, tables, locals, term) {
                Ok(TermOrValueV::Term(term)) => Ok(term),
                Ok(TermOrValueV::Value(value)) => quote(f, tables, locals.len(), false, value),
                Err(stop) => Err(stop),
            },
            TermV::InsertedMeta(span, var, infos) => match meta_solution(tables, var) {
                Ok(Some(value)) => quote_in(
                    f,
                    tables,
                    locals,
                    apply_local_infos(f, tables, value, infos, locals, 0),
                ),
                Ok(None) => Ok(TermV::InsertedMeta(span, var, infos)),
                Err(stop) => Err(stop),
            },
            TermV::Ann(span, expr, ty) => match unfold_metas(f, tables, locals, *expr) {
                Ok(expr) => match unfold_metas(f, tables, locals, *ty) {
                    Ok(ty) => Ok(TermV::Ann(span, Box::new(expr), Box::new(ty))),
                    Err(stop) => Err(stop),
                },
                Err(stop) => Err(stop),
            },
            TermV::Let(span, def_name, def_type, def_expr, body_expr) => match unfold_metas(
                f,
                tables,
                locals,
                *def_type,
            ) {
                Ok(def_type) => match unfold_metas(f, tables, locals, *def_expr) {
                    Ok(def_expr) => match unfold_bound_metas(f, tables, locals, *body_expr) {
                        Ok(body_expr) => Ok(
                            TermV::Let(
                                span,
                                def_name,
                                Box::new(def_type),
                                Box::new(def_expr),
                                Box::new(body_expr),
                            ),
                        ),
                        Err(stop) => Err(stop),
                    },
                    Err(stop) => Err(stop),
                },
                Err(stop) => Err(stop),
            },
            TermV::Universe(span) => Ok(TermV::Universe(span)),
            TermV::FunType(span, param_name, param_type, body_type) => match unfold_metas(
                f,
                tables,
                locals,
                *param_type,
            ) {
                Ok(param_type) => match unfold_bound_metas(f, tables, locals, *body_type) {
                    Ok(body_type) => Ok(
                        TermV::FunType(
                            span,
                            param_name,
                            Box::new(param_type),
                            Box::new(body_type),
                        ),
                    ),
                    Err(stop) => Err(stop),
                },
                Err(stop) => Err(stop),
            },
            TermV::FunLit(span, param_name, body_expr) => match unfold_bound_metas(
                f,
                tables,
                locals,
                *body_expr,
            ) {
                Ok(body_expr) => Ok(TermV::FunLit(span, param_name, Box::new(body_expr))),
                Err(stop) => Err(stop),
            },
            TermV::RecordType(span, labels, types) => match unfold_telescope_metas(
                f,
                tables,
                locals,
                types,
                0,
            ) {
                Ok(types) => Ok(TermV::RecordType(span, labels, types)),
                Err(stop) => Err(stop),
            },
            TermV::RecordLit(span, labels, exprs) => match unfold_all_metas(
                f,
                tables,
                locals,
                exprs,
                0,
            ) {
                Ok(exprs) => Ok(TermV::RecordLit(span, labels, exprs)),
                Err(stop) => Err(stop),
            },
            TermV::ArrayLit(span, exprs) => match unfold_all_metas(f, tables, locals, exprs, 0) {
                Ok(exprs) => Ok(TermV::ArrayLit(span, exprs)),
                Err(stop) => Err(stop),
            },
            TermV::FormatRecord(span, labels, formats) => match unfold_telescope_metas(
                f,
                tables,
                locals,
                formats,
                0,
            ) {
                Ok(formats) => Ok(TermV::FormatRecord(span, labels, formats)),
                Err(stop) => Err(stop),
            },
            TermV::FormatCond(span, name, format, pred) => match unfold_metas(
                f,
                tables,
                locals,
                *format,
            ) {
                Ok(format) => match unfold_bound_metas(f, tables, locals, *pred) {
                    Ok(pred) => Ok(TermV::FormatCond(span, name, Box::new(format), Box::new(pred))),
                    Err(stop) => Err(stop),
                },
                Err(stop) => Err(stop),
            },
            TermV::FormatOverlap(span, labels, formats) => match unfold_telescope_metas(
                f,
                tables,
                locals,
                formats,
                0,
            ) {
                Ok(formats) => Ok(TermV::FormatOverlap(span, labels, formats)),
                Err(stop) => Err(stop),
            },
            TermV::Prim(span, prim) => Ok(TermV::Prim(span, prim)),
            TermV::ConstLit(span, constant) => Ok(TermV::ConstLit(span, constant)),
        }
    }
}

/// Unfolds a spine of eliminations: where its head is a metavariable with
/// a solution, the spine is applied to the solution, and the value comes
/// back; otherwise the term comes back, with the metavariables in its parts
/// unfolded.
pub open spec fn unfold_spine_metas(
    fuel: nat,
    tables: TablesV,
    locals: Seq<ArcValueV>,
    term: TermV,
) -> Result<TermOrValueV, Stop>
    decreases fuel, 0nat, 0nat,
{
    if fuel == 0 {
        Err(Stop::Limit)
    } else {
        let f = (fuel - 1) as nat;
        match term {
            TermV::MetaVar(span, var) => match meta_solution(tables, var) {
                Ok(Some(value)) => Ok(TermOrValueV::Value(value)),
                Ok(None) => Ok(TermOrValueV::Term(TermV::MetaVar(span, var))),
                Err(stop) => Err(stop),
            },
            TermV::InsertedMeta(span, var, infos) => match meta_solution(tables, var) {
                Ok(Some(value)) => match apply_local_infos(f, tables, value, infos, locals, 0) {
                    Ok(value) => Ok(TermOrValueV::Value(value)),
                    Err(stop) => Err(stop),
                },
                Ok(None) => Ok(TermOrValueV::Term(TermV::InsertedMeta(span, var, infos))),
                Err(stop) => Err(stop),
            },
            TermV::FunApp(span, head_expr, arg_expr) => match unfold_spine_metas(
                f,
                tables,
                locals,
                *head_expr,
            ) {
                Ok(TermOrValueV::Term(head_expr)) => match unfold_metas(
                    f,
                    tables,
                    locals,
                    *arg_expr,
                ) {
                    Ok(arg_expr) => Ok(
                        TermOrValueV::Term(
                            TermV::FunApp(span, Box::new(head_expr), Box::new(arg_expr)),
                        ),
                    ),
                    Err(stop) => Err(stop),
                },
                Ok(TermOrValueV::Value(head_expr)) => match eval(f, tables, locals, *arg_expr) {
                    Ok(arg_expr) => match fun_app(f, tables, head_expr, arg_expr) {
                        Ok(value) => Ok(TermOrValueV::Value(value)),
                        Err(stop) => Err(stop),
                    },
                    Err(stop) => Err(stop),
                },
                Err(stop) => Err(stop),
            },
            TermV::RecordProj(span, head_expr, label) => match unfold_spine_metas(
                f,
                tables,
                locals,
                *head_expr,
            ) {
                Ok(TermOrValueV::Term(head_expr)) => Ok(
                    TermOrValueV::Term(TermV::RecordProj(span, Box::new(head_expr), label)),
                ),
                Ok(TermOrValueV::Value(head_expr)) => match record_proj(head_expr, label) {
                    Ok(value) => Ok(TermOrValueV::Value(value)),
                    Err(stop) => Err(stop),
                },
                Err(stop) => Err(stop),
            },
            TermV::ConstMatch(span, head_expr, branches, default_expr) => match unfold_spine_metas(
                f,
                tables,
                locals,
                *head_expr,
            ) {
                Ok(TermOrValueV::Term(head_expr)) => match unfold_branch_metas(
                    f,
                    tables,
                    locals,
                    branches,
                    0,
                ) {
                    Ok(branches) => match default_expr {
                        Some(default_expr) => match unfold_bound_metas(
                            f,
                            tables,
                            locals,
                            *default_expr,
                        ) {
                            Ok(default_expr) => Ok(
                                TermOrValueV::Term(
                                    TermV::ConstMatch(
                                        span,
                                        Box::new(head_expr),
                                        branches,
                                        Some(Box::new(default_expr)),
                                    ),
                                ),
                            ),
                            Err(stop) => Err(stop),
                        },
                        None => Ok(
                            TermOrValueV::Term(
                                TermV::ConstMatch(span, Box::new(head_expr), branches, None),
                            ),
                        ),
                    },
                    Err(stop) => Err(stop),
                },
                Ok(TermOrValueV::Value(head_expr)) => match const_match(
                    f,
                    tables,
                    head_expr,
                    BranchesV {
                        local_exprs: locals,
                        pattern_branches: branches,
                        default_expr: match default_expr {
                            Some(expr) => Some(*expr),
                            None => None,
                        },
                    },
                ) {
                    Ok(value) => Ok(TermOrValueV::Value(value)),
                    Err(stop) => Err(stop),
                },
                Err(stop) => Err(stop),
            },
            term => match unfold_metas(f, tables, locals, term) {
                Ok(term) => Ok(TermOrValueV::Term(term)),
                Err(stop) => Err(stop),
            },
        }
    }
}

/// Unfolds the metavariables in a term under a binder, with a fresh
/// variable bound.
pub open spec fn unfold_bound_metas(
    fuel: nat,
    tables: TablesV,
    locals: Seq<ArcValueV>,
    term: TermV,
) -> Result<TermV, Stop>
    decreases fuel, 1nat, 0nat,
{
    if locals.len() < max_len() {
        unfold_metas(fuel, tables, locals.push(fresh_var(locals.len())), term)
    } else {
        Err(Stop::Limit)
    }
}

/// Unfolds the metavariables in the terms of a telescope from position
/// `from` on: each term in turn, with a fresh variable bound for it in the
/// terms after it.
pub open spec fn unfold_telescope_metas(
    fuel: nat,
    tables: TablesV,
    locals: Seq<ArcValueV>,
    terms: Seq<TermV>,
    from: int,
) -> Result<Seq<TermV>, Stop>
    decreases fuel, 1nat, terms.len() - from,
{
    if from < 0 || from >= terms.len() {
        Ok(Seq::empty())
    } else {
        match unfold_metas(fuel, tables, locals, terms[from]) {
            Ok(term) => if locals.len() < max_len() {
                match unfold_telescope_metas(
                    fuel,
                    tables,
                    locals.push(fresh_var(locals.len())),
                    terms,
                    from + 1,
                ) {
                    Ok(rest) => Ok(seq![term] + rest),
                    Err(stop) => Err(stop),
                }
            } else {
                Err(Stop::Limit)
            },
            Err(stop) => Err(stop),
        }
    }
}

/// Unfolds the metavariables in the terms from position `from` on.
pub open spec fn unfold_all_metas(
    fuel: nat,
    tables: TablesV,
    locals: Seq<ArcValueV>,
    terms: Seq<TermV>,
    from: int,
) -> Result<Seq<TermV>, Stop>
    decreases fuel, 1nat, terms.len() - from,
{
    if from < 0 || from >= terms.len() {
        Ok(Seq::empty())
    } else {
        match unfold_metas(fuel, tables, locals, terms[from]) {
            Ok(term) => match unfold_all_metas(fuel, tables, locals, terms, from + 1) {
                Ok(rest) => Ok(seq![term] + rest),
                Err(stop) => Err(stop),
            },
            Err(stop) => Err(stop),
        }
    }
}

/// Unfolds the metavariables in the bodies of the branches from position
/// `from` on.
pub open spec fn unfold_branch_metas(
    fuel: nat,
    tables: TablesV,
    locals: Seq<ArcValueV>,
    branches: Seq<(Const, TermV)>,
    from: int,
) -> Result<Seq<(Const, TermV)>, Stop>
    decreases fuel, 1nat, branches.len() - from,
{
    if from < 0 || from >= branches.len() {
        Ok(Seq::empty())
    } else {
        match unfold_metas(fuel, tables, locals, branches[from].1) {
            Ok(term) => match unfold_branch_metas(fuel, tables, locals, branches, from + 1) {
                Ok(rest) => Ok(seq![(branches[from].0, term)] + rest),
                Err(stop) => Err(stop),
            },
            Err(stop) => Err(stop),
        }
    }
}

} // verus!
