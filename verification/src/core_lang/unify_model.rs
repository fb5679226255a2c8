//! The mathematical model of unification: the solving of metavariables by
//! comparing values. The functions here thread the table of solutions
//! through the comparison of the parts of two values, and take a budget as
//! those of the semantics do.

use crate::core_lang::model::{
    apply_closure, eval, force, fresh_var, fun_app, is_reported_error, level_to_index, max_len,
    record_proj, resume_telescope, split_branches, split_telescope, ArcValueV, BranchesV,
    ClosureV, ElimV, Error, Head, SplitBranchesV, Stop, TablesV, TelescopeV, ValueV,
};
use crate::core_lang::{Const, TermV};
use crate::env::Level;
use crate::source::Span;
use crate::symbol::StringId;
use vstd::prelude::*;

verus! {

/// Why two values could not be unified.
#[derive(Clone, Copy, PartialEq, Eq, Structural, Debug)]
pub enum UnifyError {
    /// The values differ where neither is a metavariable.
    Mismatch,
    /// A metavariable would occur in its own solution.
    InfiniteSolution,
    /// A metavariable is applied to the same local variable twice.
    NonLinearSpine,
    /// A local variable occurs in the solution of a metavariable that is
    /// not applied to it.
    EscapingRigidVariable,
    /// A metavariable is eliminated by something else than the application
    /// to a local variable.
    NonPatternSpine,
}

/// Why unification ended without solving its problem.
#[derive(Clone, Copy, PartialEq, Eq, Structural, Debug)]
pub enum Failure {
    /// The values cannot be unified.
    Unify(UnifyError),
    /// A computation on the values stopped.
    Stop(Stop),
}

/// The solutions of the metavariables.
pub type MetasV = Seq<Option<ArcValueV>>;

/// What unification yields: the table of solutions with those that were
/// found, or the reason why it failed.
pub type Unified = Result<MetasV, Failure>;

/// The model of a partial renaming from the local variables around a
/// metavariable to the parameters of its solution.
pub ghost struct RenamingV {
    /// For each level of the source environment, the level in the target
    /// environment that it is renamed to, if any.
    pub source: Seq<Option<Level>>,
    /// The length of the target environment.
    pub target: nat,
}

pub open spec fn tables(items: Seq<ArcValueV>, metas: MetasV) -> TablesV {
    TablesV { items, metas }
}

pub open spec fn mismatch() -> Unified {
    Err(Failure::Unify(UnifyError::Mismatch))
}

/// The result of a computation of the semantics, as a step of unification.
pub open spec fn computed<T>(result: Result<T, Stop>) -> Result<T, Failure> {
    match result {
        Ok(value) => Ok(value),
        Err(stop) => Err(Failure::Stop(stop)),
    }
}

/// The renaming with one more source variable, renamed to one more target
/// variable.
pub open spec fn push_local(renaming: RenamingV) -> RenamingV {
    RenamingV {
        source: renaming.source.push(Some(Level(renaming.target as u16))),
        target: renaming.target + 1,
    }
}

/// The empty renaming from an environment of `len` variables.
pub open spec fn empty_renaming(len: nat) -> RenamingV {
    RenamingV { source: Seq::new(len, |i: int| None), target: 0 }
}

/// The level that a source variable is renamed to.
pub open spec fn renamed(renaming: RenamingV, var: Level) -> Option<Level> {
    if var.0 < renaming.source.len() {
        renaming.source[var.0 as int]
    } else {
        None
    }
}

/// The renaming that maps the arguments of a spine, from position `from`
/// on, to the parameters of a solution. Each elimination has to be the
/// application to a local variable, and no variable may come twice.
pub open spec fn init_renaming(
    fuel: nat,
    tables: TablesV,
    spine: Seq<ElimV>,
    from: int,
    renaming: RenamingV,
) -> Result<RenamingV, Failure>
    decreases spine.len() - from,
{
    if from < 0 || from >= spine.len() {
        Ok(renaming)
    } else {
        match spine[from] {
            ElimV::FunApp(arg) => match force(fuel, tables, arg) {
                Ok(arg) => match arg.value {
                    ValueV::Stuck(Head::LocalVar(var), arg_spine) => if arg_spine.len() == 0
                        && var.0 < renaming.source.len() {
                        if renaming.source[var.0 as int] is Some {
                            Err(Failure::Unify(UnifyError::NonLinearSpine))
                        } else if renaming.target >= max_len() {
                            Err(Failure::Stop(Stop::Limit))
                        } else {
                            init_renaming(
                                fuel,
                                tables,
                                spine,
                                from + 1,
                                RenamingV {
                                    source: renaming.source.update(
                                        var.0 as int,
                                        Some(Level(renaming.target as u16)),
                                    ),
                                    target: renaming.target + 1,
                                },
                            )
                        }
                    } else {
                        Err(Failure::Unify(UnifyError::NonPatternSpine))
                    },
                    _ => Err(Failure::Unify(UnifyError::NonPatternSpine)),
                },
                Err(stop) => Err(Failure::Stop(stop)),
            },
            _ => Err(Failure::Unify(UnifyError::NonPatternSpine)),
        }
    }
}

/// The term wrapped in as many function literals as given.
pub open spec fn fun_intros(count: nat, term: TermV) -> TermV
    decreases count,
{
    if count == 0 {
        term
    } else {
        fun_intros((count - 1) as nat, TermV::FunLit(term.span(), None, Box::new(term)))
    }
}

/// Renames a value into a term of the target environment of a renaming:
/// the value is quoted, with each local variable renamed. A local variable
/// that the renaming does not map escapes, and the metavariable that is
/// being solved must not occur.
pub open spec fn rename(
    fuel: nat,
    tables: TablesV,
    meta_var: Level,
    renaming: RenamingV,
    value: ArcValueV,
) -> Result<TermV, Failure>
    decreases fuel, 0nat, 0nat,
{
    if fuel == 0 {
        Err(Failure::Stop(Stop::Limit))
    } else {
        match force((fuel - 1) as nat, tables, value) {
            Ok(value) => rename_forced((fuel - 1) as nat, tables, meta_var, renaming, value),
            Err(stop) => Err(Failure::Stop(stop)),
        }
    }
}

/// Renames a value that has been forced.
pub open spec fn rename_forced(
    fuel: nat,
    tables: TablesV,
    meta_var: Level,
    renaming: RenamingV,
    value: ArcValueV,
) -> Result<TermV, Failure>
    decreases fuel, 5nat, 0nat,
{
    let span = value.span;
    match value.value {
        ValueV::Stuck(head, spine) => match rename_head(meta_var, renaming, span, head) {
            Ok(head) => rename_spine(fuel, tables, meta_var, renaming, span, head, spine, 0),
            Err(failure) => Err(failure),
        },
        ValueV::Universe => Ok(TermV::Universe(span)),
        ValueV::FunType(name, param_type, body_type) => match rename(
            fuel,
            tables,
            meta_var,
            renaming,
            *param_type,
        ) {
            Ok(param) => match rename_closure(fuel, tables, meta_var, renaming, body_type) {
                Ok(body) => Ok(TermV::FunType(span, name, Box::new(param), Box::new(body))),
                Err(failure) => Err(failure),
            },
            Err(failure) => Err(failure),
        },
        ValueV::FunLit(name, body_expr) => match rename_closure(
            fuel,
            tables,
            meta_var,
            renaming,
            body_expr,
        ) {
            Ok(body) => Ok(TermV::FunLit(span, name, Box::new(body))),
            Err(failure) => Err(failure),
        },
        ValueV::RecordType(labels, types) => match rename_telescope(
            fuel,
            tables,
            meta_var,
            renaming,
            types,
        ) {
            Ok(types) => Ok(TermV::RecordType(span, labels, types)),
            Err(failure) => Err(failure),
        },
        ValueV::RecordLit(labels, exprs) => match rename_all(
            fuel,
            tables,
            meta_var,
            renaming,
            exprs,
            0,
        ) {
            Ok(exprs) => Ok(TermV::RecordLit(span, labels, exprs)),
            Err(failure) => Err(failure),
        },
        ValueV::ArrayLit(exprs) => match rename_all(fuel, tables, meta_var, renaming, exprs, 0) {
            Ok(exprs) => Ok(TermV::ArrayLit(span, exprs)),
            Err(failure) => Err(failure),
        },
        ValueV::FormatRecord(labels, formats) => match rename_telescope(
            fuel,
            tables,
            meta_var,
            renaming,
            formats,
        ) {
            Ok(formats) => Ok(TermV::FormatRecord(span, labels, formats)),
            Err(failure) => Err(failure),
        },
        ValueV::FormatCond(label, format, cond) => match rename(
            fuel,
            tables,
            meta_var,
            renaming,
            *format,
        ) {
            Ok(format) => match rename_closure(fuel, tables, meta_var, renaming, cond) {
                Ok(cond) => Ok(TermV::FormatCond(span, label, Box::new(format), Box::new(cond))),
                Err(failure) => Err(failure),
            },
            Err(failure) => Err(failure),
        },
        ValueV::FormatOverlap(labels, formats) => match rename_telescope(
            fuel,
            tables,
            meta_var,
            renaming,
            formats,
        ) {
            Ok(formats) => Ok(TermV::FormatOverlap(span, labels, formats)),
            Err(failure) => Err(failure),
        },
        ValueV::ConstLit(constant) => Ok(TermV::ConstLit(span, constant)),
    }
}

/// Renames the head of a stuck value.
pub open spec fn rename_head(meta_var: Level, renaming: RenamingV, span: Span, head: Head) -> Result<
    TermV,
    Failure,
> {
    match head {
        Head::Prim(prim) => Ok(TermV::Prim(span, prim)),
        Head::LocalVar(var) => match renamed(renaming, var) {
            Some(target) => match level_to_index(renaming.target, target) {
                Some(index) => Ok(TermV::LocalVar(span, index)),
                None => Err(Failure::Unify(UnifyError::EscapingRigidVariable)),
            },
            None => Err(Failure::Unify(UnifyError::EscapingRigidVariable)),
        },
        Head::MetaVar(var) => if var == meta_var {
            Err(Failure::Unify(UnifyError::InfiniteSolution))
        } else {
            Ok(TermV::MetaVar(span, var))
        },
    }
}

/// Renames the eliminations of a spine from position `from` on, around the
/// term that the head and the eliminations before have given.
pub open spec fn rename_spine(
    fuel: nat,
    tables: TablesV,
    meta_var: Level,
    renaming: RenamingV,
    span: Span,
    head: TermV,
    spine: Seq<ElimV>,
    from: int,
) -> Result<TermV, Failure>
    decreases fuel, 4nat, spine.len() - from,
{
    if from < 0 || from >= spine.len() {
        Ok(head)
    } else {
        match rename_elim(fuel, tables, meta_var, renaming, span, head, spine[from]) {
            Ok(next) => rename_spine(
                fuel,
                tables,
                meta_var,
                renaming,
                span,
                next,
                spine,
                from + 1,
            ),
            Err(failure) => Err(failure),
        }
    }
}

/// Renames one elimination around the term of what it eliminates.
pub open spec fn rename_elim(
    fuel: nat,
    tables: TablesV,
    meta_var: Level,
    renaming: RenamingV,
    span: Span,
    head: TermV,
    elim: ElimV,
) -> Result<TermV, Failure>
    decreases fuel, 3nat, 0nat,
{
    match elim {
        ElimV::FunApp(arg) => match rename(fuel, tables, meta_var, renaming, arg) {
            Ok(arg) => Ok(TermV::FunApp(span, Box::new(head), Box::new(arg))),
            Err(failure) => Err(failure),
        },
        ElimV::RecordProj(label) => Ok(TermV::RecordProj(span, Box::new(head), label)),
        ElimV::ConstMatch(branches) => match rename_branches(
            fuel,
            tables,
            meta_var,
            renaming,
            branches,
        ) {
            Ok((branches, default_expr)) => Ok(
                TermV::ConstMatch(
                    span,
                    Box::new(head),
                    branches,
                    match default_expr {
                        Some(expr) => Some(Box::new(expr)),
                        None => None,
                    },
                ),
            ),
            Err(failure) => Err(failure),
        },
    }
}

/// Renames the branches of a match.
pub open spec fn rename_branches(
    fuel: nat,
    tables: TablesV,
    meta_var: Level,
    renaming: RenamingV,
    branches: BranchesV,
) -> Result<(Seq<(Const, TermV)>, Option<TermV>), Failure>
    decreases fuel, 2nat, branches.pattern_branches.len(),
{
    match split_branches(fuel, tables, branches) {
        Ok(SplitBranchesV::Branch((constant, body), next)) => match rename(
            fuel,
            tables,
            meta_var,
            renaming,
            body,
        ) {
            Ok(body) => match rename_branches(fuel, tables, meta_var, renaming, next) {
                Ok((rest, default_expr)) => Ok((seq![(constant, body)] + rest, default_expr)),
                Err(failure) => Err(failure),
            },
            Err(failure) => Err(failure),
        },
        Ok(SplitBranchesV::Default(default_expr)) => match rename_closure(
            fuel,
            tables,
            meta_var,
            renaming,
            default_expr,
        ) {
            Ok(default_expr) => Ok((Seq::empty(), Some(default_expr))),
            Err(failure) => Err(failure),
        },
        Ok(SplitBranchesV::End) => Ok((Seq::empty(), None)),
        Err(stop) => Err(Failure::Stop(stop)),
    }
}

/// Whether a renaming can take one more variable on both sides.
pub open spec fn has_room(renaming: RenamingV) -> bool {
    renaming.source.len() < max_len() && renaming.target < max_len()
}

/// Renames a closure: its body is evaluated with a fresh source variable,
/// and the result is renamed with that variable mapped to a fresh target
/// variable.
pub open spec fn rename_closure(
    fuel: nat,
    tables: TablesV,
    meta_var: Level,
    renaming: RenamingV,
    closure: ClosureV,
) -> Result<TermV, Failure>
    decreases fuel, 1nat, 0nat,
{
    match apply_closure(fuel, tables, closure, fresh_var(renaming.source.len())) {
        Ok(value) => if has_room(renaming) {
            rename(fuel, tables, meta_var, push_local(renaming), value)
        } else {
            Err(Failure::Stop(Stop::Limit))
        },
        Err(stop) => Err(Failure::Stop(stop)),
    }
}

/// Renames a telescope.
pub open spec fn rename_telescope(
    fuel: nat,
    tables: TablesV,
    meta_var: Level,
    renaming: RenamingV,
    telescope: TelescopeV,
) -> Result<Seq<TermV>, Failure>
    decreases fuel, 1nat, telescope.terms.len(),
{
    match split_telescope(fuel, tables, telescope) {
        Ok(Some((value, rest))) => match rename(fuel, tables, meta_var, renaming, value) {
            Ok(term) => if has_room(renaming) {
                match rename_telescope(
                    fuel,
                    tables,
                    meta_var,
                    push_local(renaming),
                    resume_telescope(rest, fresh_var(renaming.source.len())),
                ) {
                    Ok(terms) => Ok(seq![term] + terms),
                    Err(failure) => Err(failure),
                }
            } else {
                Err(Failure::Stop(Stop::Limit))
            },
            Err(failure) => Err(failure),
        },
        Ok(None) => Ok(Seq::empty()),
        Err(stop) => Err(Failure::Stop(stop)),
    }
}

/// Renames the values from position `from` on, in order.
pub open spec fn rename_all(
    fuel: nat,
    tables: TablesV,
    meta_var: Level,
    renaming: RenamingV,
    values: Seq<ArcValueV>,
    from: int,
) -> Result<Seq<TermV>, Failure>
    decreases fuel, 1nat, values.len() - from,
{
    if from < 0 || from >= values.len() {
        Ok(Seq::empty())
    } else {
        match rename(fuel, tables, meta_var, renaming, values[from]) {
            Ok(term) => match rename_all(fuel, tables, meta_var, renaming, values, from + 1) {
                Ok(terms) => Ok(seq![term] + terms),
                Err(failure) => Err(failure),
            },
            Err(failure) => Err(failure),
        }
    }
}

/// Solves a metavariable that is applied to a spine against a value: the
/// spine has to consist of distinct local variables, the value is renamed
/// into a term over the parameters that stand for these variables, and the
/// function of these parameters is the solution.
pub open spec fn solve(
    fuel: nat,
    items: Seq<ArcValueV>,
    metas: MetasV,
    len: nat,
    meta_var: Level,
    spine: Seq<ElimV>,
    value: ArcValueV,
) -> Unified {
    if meta_var.0 >= metas.len() {
        Err(Failure::Stop(Stop::Error(Error::UnboundMetaVar)))
    } else {
        match init_renaming(fuel, tables(items, metas), spine, 0, empty_renaming(len)) {
            Ok(renaming) => match rename(fuel, tables(items, metas), meta_var, renaming, value) {
                Ok(term) => match eval(
                    fuel,
                    tables(items, metas),
                    Seq::empty(),
                    fun_intros(spine.len(), term),
                ) {
                    Ok(solution) => Ok(metas.update(meta_var.0 as int, Some(solution))),
                    Err(stop) => Err(Failure::Stop(stop)),
                },
                Err(failure) => Err(failure),
            },
            Err(failure) => Err(failure),
        }
    }
}

/// Unifies two values in an environment of `len` bindings: the table of
/// solutions comes back with the solutions that make the values equal, or
/// the reason why there are none.
pub open spec fn unify(
    fuel: nat,
    items: Seq<ArcValueV>,
    metas: MetasV,
    len: nat,
    value0: ArcValueV,
    value1: ArcValueV,
) -> Unified
    decreases fuel, 0nat, 0nat,
{
    if fuel == 0 {
        Err(Failure::Stop(Stop::Limit))
    } else {
        match force((fuel - 1) as nat, tables(items, metas), value0) {
            Ok(value0) => match force((fuel - 1) as nat, tables(items, metas), value1) {
                Ok(value1) => unify_forced((fuel - 1) as nat, items, metas, len, value0, value1),
                Err(stop) => Err(Failure::Stop(stop)),
            },
            Err(stop) => Err(Failure::Stop(stop)),
        }
    }
}

/// Unifies two values that have been forced.
///
/// A reported error unifies with everything. Two values of the same shape
/// are unified part by part, as conversion compares them, and function and
/// record literals are expanded against other values as conversion does.
/// Where a value is stuck on a metavariable and the other is of another
/// shape or stuck on another head, the metavariable is solved; of two
/// metavariables the one of the higher level is.
pub open spec fn unify_forced(
    fuel: nat,
    items: Seq<ArcValueV>,
    metas: MetasV,
    len: nat,
    value0: ArcValueV,
    value1: ArcValueV,
) -> Unified
    decreases fuel, 7nat, 0nat,
{
    if is_reported_error(value0) || is_reported_error(value1) {
        Ok(metas)
    } else {
        match (value0.value, value1.value) {
            (ValueV::Stuck(head0, spine0), ValueV::Stuck(head1, spine1)) => if head0 == head1 {
                if spine0.len() == spine1.len() {
                    unify_spines(fuel, items, metas, len, spine0, spine1, 0)
                } else {
                    mismatch()
                }
            } else {
                unify_flexible(fuel, items, metas, len, value0, value1)
            },
            (ValueV::Universe, ValueV::Universe) => Ok(metas),
            (
                ValueV::FunType(_, param_type0, body_type0),
                ValueV::FunType(_, param_type1, body_type1),
            ) => match unify(fuel, items, metas, len, *param_type0, *param_type1) {
                Ok(metas) => unify_closures(fuel, items, metas, len, body_type0, body_type1),
                Err(failure) => Err(failure),
            },
            (ValueV::FunLit(_, body_expr0), ValueV::FunLit(_, body_expr1)) => unify_closures(
                fuel,
                items,
                metas,
                len,
                body_expr0,
                body_expr1,
            ),
            (ValueV::FunLit(_, body_expr), _) => unify_fun_lit(
                fuel,
                items,
                metas,
                len,
                body_expr,
                value1,
            ),
            (_, ValueV::FunLit(_, body_expr)) => unify_fun_lit(
                fuel,
                items,
                metas,
                len,
                body_expr,
                value0,
            ),
            (ValueV::RecordType(labels0, types0), ValueV::RecordType(labels1, types1)) => if labels0
                == labels1 {
                unify_telescopes(fuel, items, metas, len, types0, types1)
            } else {
                mismatch()
            },
            (ValueV::RecordLit(labels0, exprs0), ValueV::RecordLit(labels1, exprs1)) => if labels0
                == labels1 && exprs0.len() == exprs1.len() {
                unify_all(fuel, items, metas, len, exprs0, exprs1, 0)
            } else {
                mismatch()
            },
            (ValueV::RecordLit(labels, exprs), _) => unify_record_lit(
                fuel,
                items,
                metas,
                len,
                labels,
                exprs,
                value1,
                0,
            ),
            (_, ValueV::RecordLit(labels, exprs)) => unify_record_lit(
                fuel,
                items,
                metas,
                len,
                labels,
                exprs,
                value0,
                0,
            ),
            (ValueV::ArrayLit(exprs0), ValueV::ArrayLit(exprs1)) => if exprs0.len()
                == exprs1.len() {
                unify_all(fuel, items, metas, len, exprs0, exprs1, 0)
            } else {
                mismatch()
            },
            (
                ValueV::FormatRecord(labels0, formats0),
                ValueV::FormatRecord(labels1, formats1),
            ) => if labels0 == labels1 {
                unify_telescopes(fuel, items, metas, len, formats0, formats1)
            } else {
                mismatch()
            },
            (
                ValueV::FormatOverlap(labels0, formats0),
                ValueV::FormatOverlap(labels1, formats1),
            ) => if labels0 == labels1 {
                unify_telescopes(fuel, items, metas, len, formats0, formats1)
            } else {
                mismatch()
            },
            (
                ValueV::FormatCond(label0, format0, cond0),
                ValueV::FormatCond(label1, format1, cond1),
            ) => if label0 == label1 {
                match unify(fuel, items, metas, len, *format0, *format1) {
                    Ok(metas) => unify_closures(fuel, items, metas, len, cond0, cond1),
                    Err(failure) => Err(failure),
                }
            } else {
                mismatch()
            },
            (ValueV::ConstLit(const0), ValueV::ConstLit(const1)) => if const0.same(const1) {
                Ok(metas)
            } else {
                mismatch()
            },
            (_, _) => unify_flexible(fuel, items, metas, len, value0, value1),
        }
    }
}

/// Unifies two values of different shapes or heads: this takes one of them
/// to be stuck on a metavariable, which is then solved. Of two
/// metavariables the one of the higher level is solved.
pub open spec fn unify_flexible(
    fuel: nat,
    items: Seq<ArcValueV>,
    metas: MetasV,
    len: nat,
    value0: ArcValueV,
    value1: ArcValueV,
) -> Unified {
    match (value0.value, value1.value) {
        (
            ValueV::Stuck(Head::MetaVar(var0), spine0),
            ValueV::Stuck(Head::MetaVar(var1), spine1),
        ) => if var0.0 >= var1.0 {
            solve(fuel, items, metas, len, var0, spine0, value1)
        } else {
            solve(fuel, items, metas, len, var1, spine1, value0)
        },
        (ValueV::Stuck(Head::MetaVar(var), spine), _) => solve(
            fuel,
            items,
            metas,
            len,
            var,
            spine,
            value1,
        ),
        (_, ValueV::Stuck(Head::MetaVar(var), spine)) => solve(
            fuel,
            items,
            metas,
            len,
            var,
            spine,
            value0,
        ),
        (_, _) => mismatch(),
    }
}

/// Unifies two eliminations.
pub open spec fn unify_elims(
    fuel: nat,
    items: Seq<ArcValueV>,
    metas: MetasV,
    len: nat,
    elim0: ElimV,
    elim1: ElimV,
) -> Unified
    decreases fuel, 5nat, 0nat,
{
    match (elim0, elim1) {
        (ElimV::FunApp(expr0), ElimV::FunApp(expr1)) => unify(
            fuel,
            items,
            metas,
            len,
            expr0,
            expr1,
        ),
        (ElimV::RecordProj(label0), ElimV::RecordProj(label1)) => if label0 == label1 {
            Ok(metas)
        } else {
            mismatch()
        },
        (ElimV::ConstMatch(branches0), ElimV::ConstMatch(branches1)) => unify_branches(
            fuel,
            items,
            metas,
            len,
            branches0,
            branches1,
        ),
        (_, _) => mismatch(),
    }
}

/// Unifies two spines of one length pointwise, from position `from` on.
pub open spec fn unify_spines(
    fuel: nat,
    items: Seq<ArcValueV>,
    metas: MetasV,
    len: nat,
    spine0: Seq<ElimV>,
    spine1: Seq<ElimV>,
    from: int,
) -> Unified
    decreases fuel, 6nat, spine0.len() - from,
{
    if from < 0 || from >= spine0.len() || from >= spine1.len() {
        Ok(metas)
    } else {
        match unify_elims(fuel, items, metas, len, spine0[from], spine1[from]) {
            Ok(metas) => unify_spines(fuel, items, metas, len, spine0, spine1, from + 1),
            Err(failure) => Err(failure),
        }
    }
}

/// Unifies two sequences of values of one length pointwise, from position
/// `from` on.
pub open spec fn unify_all(
    fuel: nat,
    items: Seq<ArcValueV>,
    metas: MetasV,
    len: nat,
    exprs0: Seq<ArcValueV>,
    exprs1: Seq<ArcValueV>,
    from: int,
) -> Unified
    decreases fuel, 1nat, exprs0.len() - from,
{
    if from < 0 || from >= exprs0.len() || from >= exprs1.len() {
        Ok(metas)
    } else {
        match unify(fuel, items, metas, len, exprs0[from], exprs1[from]) {
            Ok(metas) => unify_all(fuel, items, metas, len, exprs0, exprs1, from + 1),
            Err(failure) => Err(failure),
        }
    }
}

/// Unifies two values under one more binding.
pub open spec fn unify_under(
    fuel: nat,
    items: Seq<ArcValueV>,
    metas: MetasV,
    len: nat,
    value0: ArcValueV,
    value1: ArcValueV,
) -> Unified
    decreases fuel, 1nat, 0nat,
{
    if len < max_len() {
        unify(fuel, items, metas, len + 1, value0, value1)
    } else {
        Err(Failure::Stop(Stop::Limit))
    }
}

/// Unifies two closures: their bodies, with the same fresh variable bound
/// in both.
pub open spec fn unify_closures(
    fuel: nat,
    items: Seq<ArcValueV>,
    metas: MetasV,
    len: nat,
    closure0: ClosureV,
    closure1: ClosureV,
) -> Unified
    decreases fuel, 2nat, 0nat,
{
    match apply_closure(fuel, tables(items, metas), closure0, fresh_var(len)) {
        Ok(value0) => match apply_closure(fuel, tables(items, metas), closure1, fresh_var(len)) {
            Ok(value1) => unify_under(fuel, items, metas, len, value0, value1),
            Err(stop) => Err(Failure::Stop(stop)),
        },
        Err(stop) => Err(Failure::Stop(stop)),
    }
}

/// Unifies two telescopes: they have to be of one length, and their values
/// are unified pairwise.
pub open spec fn unify_telescopes(
    fuel: nat,
    items: Seq<ArcValueV>,
    metas: MetasV,
    len: nat,
    telescope0: TelescopeV,
    telescope1: TelescopeV,
) -> Unified
    decreases fuel, 4nat, 0nat,
{
    if telescope0.terms.len() != telescope1.terms.len() {
        mismatch()
    } else {
        unify_values(fuel, items, metas, len, telescope0, telescope1)
    }
}

/// Unifies the values of two telescopes pairwise, as far as both have
/// values.
pub open spec fn unify_values(
    fuel: nat,
    items: Seq<ArcValueV>,
    metas: MetasV,
    len: nat,
    telescope0: TelescopeV,
    telescope1: TelescopeV,
) -> Unified
    decreases fuel, 3nat, telescope0.terms.len(),
{
    match split_telescope(fuel, tables(items, metas), telescope0) {
        Ok(split0) => match split_telescope(fuel, tables(items, metas), telescope1) {
            Ok(split1) => match (split0, split1) {
                (Some((value0, rest0)), Some((value1, rest1))) => match unify(
                    fuel,
                    items,
                    metas,
                    len,
                    value0,
                    value1,
                ) {
                    Ok(metas) => if len < max_len() {
                        unify_values(
                            fuel,
                            items,
                            metas,
                            len + 1,
                            resume_telescope(rest0, fresh_var(len)),
                            resume_telescope(rest1, fresh_var(len)),
                        )
                    } else {
                        Err(Failure::Stop(Stop::Limit))
                    },
                    Err(failure) => Err(failure),
                },
                (_, _) => Ok(metas),
            },
            Err(stop) => Err(Failure::Stop(stop)),
        },
        Err(stop) => Err(Failure::Stop(stop)),
    }
}

/// Unifies the branches of two matches.
pub open spec fn unify_branches(
    fuel: nat,
    items: Seq<ArcValueV>,
    metas: MetasV,
    len: nat,
    branches0: BranchesV,
    branches1: BranchesV,
) -> Unified
    decreases fuel, 3nat, branches0.pattern_branches.len(),
{
    match split_branches(fuel, tables(items, metas), branches0) {
        Ok(split0) => match split_branches(fuel, tables(items, metas), branches1) {
            Ok(split1) => match (split0, split1) {
                (
                    SplitBranchesV::Branch((const0, body0), next0),
                    SplitBranchesV::Branch((const1, body1), next1),
                ) => if const0.same(const1) {
                    match unify(fuel, items, metas, len, body0, body1) {
                        Ok(metas) => unify_branches(fuel, items, metas, len, next0, next1),
                        Err(failure) => Err(failure),
                    }
                } else {
                    mismatch()
                },
                (SplitBranchesV::Default(default0), SplitBranchesV::Default(default1)) => {
                    unify_closures(fuel, items, metas, len, default0, default1)
                },
                (SplitBranchesV::End, SplitBranchesV::End) => Ok(metas),
                (_, _) => mismatch(),
            },
            Err(stop) => Err(Failure::Stop(stop)),
        },
        Err(stop) => Err(Failure::Stop(stop)),
    }
}

/// Unifies a function literal with a value that is none: the body of the
/// literal with the value applied to the parameter.
pub open spec fn unify_fun_lit(
    fuel: nat,
    items: Seq<ArcValueV>,
    metas: MetasV,
    len: nat,
    body_expr: ClosureV,
    value: ArcValueV,
) -> Unified
    decreases fuel, 2nat, 0nat,
{
    match fun_app(fuel, tables(items, metas), value, fresh_var(len)) {
        Ok(value) => match apply_closure(fuel, tables(items, metas), body_expr, fresh_var(len)) {
            Ok(body) => unify_under(fuel, items, metas, len, body, value),
            Err(stop) => Err(Failure::Stop(stop)),
        },
        Err(stop) => Err(Failure::Stop(stop)),
    }
}

/// Unifies a record literal with a value that is none: each field from
/// position `from` on with the projection of its label from the value.
pub open spec fn unify_record_lit(
    fuel: nat,
    items: Seq<ArcValueV>,
    metas: MetasV,
    len: nat,
    labels: Seq<StringId>,
    exprs: Seq<ArcValueV>,
    value: ArcValueV,
    from: int,
) -> Unified
    decreases fuel, 1nat, labels.len() - from,
{
    if from < 0 || from >= labels.len() || from >= exprs.len() {
        Ok(metas)
    } else {
        match record_proj(value, labels[from]) {
            Ok(field) => match unify(fuel, items, metas, len, exprs[from], field) {
                Ok(metas) => unify_record_lit(
                    fuel,
                    items,
                    metas,
                    len,
                    labels,
                    exprs,
                    value,
                    from + 1,
                ),
                Err(failure) => Err(failure),
            },
            Err(stop) => Err(Failure::Stop(stop)),
        }
    }
}

} // verus!
