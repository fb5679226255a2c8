//! Solving a metavariable is sound, where the metavariable is applied to
//! the local variables in order, as one that was inserted under parameters
//! is: the solution that is stored, applied to the variables, is convertible
//! to the value that it was solved against; and once it is stored, the
//! metavariable applied to the variables is convertible to the value.
//!
//! This rests on renaming with the identity being quotation: where each
//! variable is renamed to itself, a value is renamed into the term that
//! quotation reads it back into.

use crate::core_lang::budget::{lemma_apply_spine_step, lemma_force_stable, within_limits};
use crate::core_lang::budget_quote::lemma_is_equal_stable;
use crate::core_lang::occurs::{
    agree, all_avoid, avoids, branches_avoid, lemma_apply_spine_avoids, lemma_eval_avoids,
    lemma_quote_avoids, lemma_stuck_avoids, spine_avoids, tables_avoid, term_avoids,
    terms_avoid,
};
use crate::core_lang::idempotence::{
    are_variables, is_plain, larger, lemma_eval_lift, lemma_quote_lift, lemma_requote,
};
use crate::core_lang::model::{
    app_arg, apply_closure, apply_spine, eval, force, force_step, fresh_var, fun_app, is_equal,
    local_var,
    max_len, quote, quote_all, quote_branches, quote_closure, quote_forced, quote_head,
    quote_spine, quote_telescope, resume_telescope, spanned, split_branches, split_telescope,
    ArcValueV, BranchesV, ClosureV, ElimV, Head, SplitBranchesV, Stop, TablesV, TelescopeV,
    ValueV,
};
use crate::core_lang::normal_forms::{lemma_same_quote, quote_elim};
use crate::core_lang::model::is_reported_error;
use crate::core_lang::settled::{are_settled_tables, is_settled, lemma_force_settled};
use crate::core_lang::symmetry::lemma_is_equal_symmetric;
use crate::core_lang::unify_laws::lemma_unify_symmetric;
use crate::core_lang::unify_model::{unify, unify_flexible, unify_forced};
use crate::core_lang::unify_model::{
    empty_renaming, fun_intros, has_room, init_renaming, push_local, rename, rename_all,
    rename_branches, rename_closure, rename_elim, rename_forced, rename_head, rename_spine,
    rename_telescope, solve, tables, Failure, MetasV, RenamingV,
};
use crate::core_lang::{TermV};
use crate::env::Level;
use crate::source::Span;
use vstd::prelude::*;

verus! {

/// Whether a renaming renames each variable of its source to itself.
pub open spec fn is_identity(renaming: RenamingV) -> bool {
    renaming.target == renaming.source.len() && renaming.target <= max_len() && forall|i: int|
        0 <= i < renaming.source.len() ==> #[trigger] renaming.source[i] == Some(
            Level(i as u16),
        )
}

/// The identity with one more variable is the identity.
pub proof fn lemma_push_identity(renaming: RenamingV)
    requires
        is_identity(renaming),
        has_room(renaming),
    ensures
        is_identity(push_local(renaming)),
{
    let pushed = push_local(renaming);
    assert forall|i: int| 0 <= i < pushed.source.len() implies #[trigger] pushed.source[i]
        == Some(Level(i as u16)) by {
        if i < renaming.source.len() {
            assert(pushed.source[i] == renaming.source[i]);
        }
    }
}

/// Whether a renaming gave the term that quotation gives.
pub open spec fn is_quoted<T>(renamed: Result<T, Failure>, quoted: Result<T, Stop>) -> bool {
    match renamed {
        Ok(term) => quoted == Ok::<T, Stop>(term),
        Err(_) => true,
    }
}

/// A value is renamed by the identity into the term that quotation reads it
/// back into.
pub proof fn lemma_rename(
    fuel: nat,
    tables: TablesV,
    meta_var: Level,
    renaming: RenamingV,
    value: ArcValueV,
)
    requires
        is_identity(renaming),
    ensures
        is_quoted(
            rename(fuel, tables, meta_var, renaming, value),
            quote(fuel, tables, renaming.target, false, value),
        ),
    decreases fuel, 0nat, 0nat,
{
    if fuel > 0 {
        let f = (fuel - 1) as nat;
        match force(f, tables, value) {
            Ok(forced) => {
                lemma_rename_forced(f, tables, meta_var, renaming, forced);
            },
            Err(_) => {},
        }
    }
}

proof fn lemma_rename_forced(
    fuel: nat,
    tables: TablesV,
    meta_var: Level,
    renaming: RenamingV,
    value: ArcValueV,
)
    requires
        is_identity(renaming),
    ensures
        is_quoted(
            rename_forced(fuel, tables, meta_var, renaming, value),
            quote_forced(fuel, tables, renaming.target, false, value),
        ),
    decreases fuel, 5nat, 0nat,
{
    let span = value.span;
    match value.value {
        ValueV::Stuck(head, spine) => {
            lemma_rename_head(fuel, tables, meta_var, renaming, span, head);
            match rename_head(meta_var, renaming, span, head) {
                Ok(head_term) => {
                    lemma_rename_spine(
                        fuel,
                        tables,
                        meta_var,
                        renaming,
                        span,
                        head_term,
                        spine,
                        0,
                    );
                },
                Err(_) => {},
            }
        },
        ValueV::FunType(_, param_type, body_type) => {
            lemma_rename(fuel, tables, meta_var, renaming, *param_type);
            lemma_rename_closure(fuel, tables, meta_var, renaming, body_type);
        },
        ValueV::FunLit(_, body_expr) => {
            lemma_rename_closure(fuel, tables, meta_var, renaming, body_expr);
        },
        ValueV::RecordType(_, types) => {
            lemma_rename_telescope(fuel, tables, meta_var, renaming, types);
        },
        ValueV::RecordLit(_, exprs) => {
            lemma_rename_all(fuel, tables, meta_var, renaming, exprs, 0);
        },
        ValueV::ArrayLit(exprs) => {
            lemma_rename_all(fuel, tables, meta_var, renaming, exprs, 0);
        },
        ValueV::FormatRecord(_, formats) => {
            lemma_rename_telescope(fuel, tables, meta_var, renaming, formats);
        },
        ValueV::FormatCond(_, format, cond) => {
            lemma_rename(fuel, tables, meta_var, renaming, *format);
            lemma_rename_closure(fuel, tables, meta_var, renaming, cond);
        },
        ValueV::FormatOverlap(_, formats) => {
            lemma_rename_telescope(fuel, tables, meta_var, renaming, formats);
        },
        _ => {},
    }
}

proof fn lemma_rename_head(
    fuel: nat,
    tables: TablesV,
    meta_var: Level,
    renaming: RenamingV,
    span: Span,
    head: Head,
)
    requires
        is_identity(renaming),
    ensures
        is_quoted(
            rename_head(meta_var, renaming, span, head),
            quote_head(fuel, tables, renaming.target, false, span, head),
        ),
{
    match head {
        Head::LocalVar(var) => {
            if var.0 < renaming.source.len() {
                assert(renaming.source[var.0 as int] == Some(Level(var.0 as int as u16)));
            }
        },
        _ => {},
    }
}

proof fn lemma_rename_spine(
    fuel: nat,
    tables: TablesV,
    meta_var: Level,
    renaming: RenamingV,
    span: Span,
    head: TermV,
    spine: Seq<ElimV>,
    from: int,
)
    requires
        is_identity(renaming),
    ensures
        is_quoted(
            rename_spine(fuel, tables, meta_var, renaming, span, head, spine, from),
            quote_spine(fuel, tables, renaming.target, false, span, head, spine, from),
        ),
    decreases fuel, 4nat, spine.len() - from,
{
    if !(from < 0 || from >= spine.len()) {
        lemma_rename_elim(fuel, tables, meta_var, renaming, span, head, spine[from]);
        match rename_elim(fuel, tables, meta_var, renaming, span, head, spine[from]) {
            Ok(next) => {
                assert(quote_elim(fuel, tables, renaming.target, false, span, head, spine[from])
                    == Ok::<TermV, Stop>(next));
                lemma_rename_spine(fuel, tables, meta_var, renaming, span, next, spine, from + 1);
            },
            Err(_) => {},
        }
    }
}

proof fn lemma_rename_elim(
    fuel: nat,
    tables: TablesV,
    meta_var: Level,
    renaming: RenamingV,
    span: Span,
    head: TermV,
    elim: ElimV,
)
    requires
        is_identity(renaming),
    ensures
        is_quoted(
            rename_elim(fuel, tables, meta_var, renaming, span, head, elim),
            quote_elim(fuel, tables, renaming.target, false, span, head, elim),
        ),
    decreases fuel, 3nat, 0nat,
{
    match elim {
        ElimV::FunApp(arg) => {
            lemma_rename(fuel, tables, meta_var, renaming, arg);
        },
        ElimV::RecordProj(_) => {},
        ElimV::ConstMatch(branches) => {
            lemma_rename_branches(fuel, tables, meta_var, renaming, branches);
        },
    }
}

proof fn lemma_rename_branches(
    fuel: nat,
    tables: TablesV,
    meta_var: Level,
    renaming: RenamingV,
    branches: BranchesV,
)
    requires
        is_identity(renaming),
    ensures
        is_quoted(
            rename_branches(fuel, tables, meta_var, renaming, branches),
            quote_branches(fuel, tables, renaming.target, false, branches),
        ),
    decreases fuel, 2nat, branches.pattern_branches.len(),
{
    match split_branches(fuel, tables, branches) {
        Ok(SplitBranchesV::Branch((_, body), next)) => {
            lemma_rename(fuel, tables, meta_var, renaming, body);
            lemma_rename_branches(fuel, tables, meta_var, renaming, next);
        },
        Ok(SplitBranchesV::Default(default_expr)) => {
            lemma_rename_closure(fuel, tables, meta_var, renaming, default_expr);
        },
        _ => {},
    }
}

proof fn lemma_rename_closure(
    fuel: nat,
    tables: TablesV,
    meta_var: Level,
    renaming: RenamingV,
    closure: ClosureV,
)
    requires
        is_identity(renaming),
    ensures
        is_quoted(
            rename_closure(fuel, tables, meta_var, renaming, closure),
            quote_closure(fuel, tables, renaming.target, false, closure),
        ),
    decreases fuel, 1nat, 0nat,
{
    match apply_closure(fuel, tables, closure, fresh_var(renaming.source.len())) {
        Ok(value) => {
            if has_room(renaming) {
                lemma_push_identity(renaming);
                lemma_rename(fuel, tables, meta_var, push_local(renaming), value);
            }
        },
        Err(_) => {},
    }
}

proof fn lemma_rename_telescope(
    fuel: nat,
    tables: TablesV,
    meta_var: Level,
    renaming: RenamingV,
    telescope: TelescopeV,
)
    requires
        is_identity(renaming),
    ensures
        is_quoted(
            rename_telescope(fuel, tables, meta_var, renaming, telescope),
            quote_telescope(fuel, tables, renaming.target, false, telescope),
        ),
    decreases fuel, 1nat, telescope.terms.len(),
{
    match split_telescope(fuel, tables, telescope) {
        Ok(Some((value, rest))) => {
            lemma_rename(fuel, tables, meta_var, renaming, value);
            if has_room(renaming) {
                lemma_push_identity(renaming);
                lemma_rename_telescope(
                    fuel,
                    tables,
                    meta_var,
                    push_local(renaming),
                    resume_telescope(rest, fresh_var(renaming.source.len())),
                );
            }
        },
        _ => {},
    }
}

proof fn lemma_rename_all(
    fuel: nat,
    tables: TablesV,
    meta_var: Level,
    renaming: RenamingV,
    values: Seq<ArcValueV>,
    from: int,
)
    requires
        is_identity(renaming),
    ensures
        is_quoted(
            rename_all(fuel, tables, meta_var, renaming, values, from),
            quote_all(fuel, tables, renaming.target, false, values, from),
        ),
    decreases fuel, 1nat, values.len() - from,
{
    if !(from < 0 || from >= values.len()) {
        lemma_rename(fuel, tables, meta_var, renaming, values[from]);
        lemma_rename_all(fuel, tables, meta_var, renaming, values, from + 1);
    }
}

/// Whether a spine applies to the local variables, each at its level, the
/// oldest first.
pub open spec fn is_variables_spine(spine: Seq<ElimV>) -> bool {
    spine.len() <= max_len() && forall|i: int|
        0 <= i < spine.len() ==> match #[trigger] spine[i] {
            ElimV::FunApp(arg) => arg.value == local_var(Level(i as u16)),
            _ => false,
        }
}

/// The arguments of the first applications of a spine.
pub open spec fn spine_args(spine: Seq<ElimV>, count: nat) -> Seq<ArcValueV> {
    Seq::new(count, |i: int| app_arg(spine[i])->0)
}

/// The renaming of the variables below `count`, each to itself, in an
/// environment of `len` variables.
pub open spec fn prefix_renaming(len: nat, count: nat) -> RenamingV {
    RenamingV {
        source: Seq::new(
            len,
            |i: int|
                if i < count {
                    Some(Level(i as u16))
                } else {
                    None
                },
        ),
        target: count,
    }
}

/// The renaming of a spine of the local variables in order is the
/// identity.
proof fn lemma_init_renaming(fuel: nat, tables: TablesV, spine: Seq<ElimV>, from: int)
    requires
        fuel > 0,
        is_variables_spine(spine),
        0 <= from <= spine.len(),
    ensures
        init_renaming(fuel, tables, spine, from, prefix_renaming(spine.len(), from as nat))
            == Ok::<RenamingV, Failure>(prefix_renaming(spine.len(), spine.len())),
    decreases spine.len() - from,
{
    let n = spine.len();
    if from < n {
        let arg = app_arg(spine[from])->0;
        assert(arg.value == local_var(Level(from as u16)));
        assert(force(fuel, tables, arg) == Ok::<ArcValueV, Stop>(arg));
        let renaming = prefix_renaming(n, from as nat);
        let next = RenamingV {
            source: renaming.source.update(from, Some(Level(renaming.target as u16))),
            target: renaming.target + 1,
        };
        assert(next.source =~= prefix_renaming(n, (from + 1) as nat).source);
        assert(next == prefix_renaming(n, (from + 1) as nat));
        lemma_init_renaming(fuel, tables, spine, from + 1);
    }
}

/// The application of a spine that ended within its limits is the same
/// within every larger budget.
proof fn lemma_apply_spine_lift(
    g: nat,
    h: nat,
    tables: TablesV,
    head: ArcValueV,
    spine: Seq<ElimV>,
    from: int,
)
    requires
        g <= h,
        within_limits(apply_spine(g, tables, head, spine, from)),
    ensures
        apply_spine(h, tables, head, spine, from) == apply_spine(g, tables, head, spine, from),
    decreases h - g,
{
    if g < h {
        lemma_apply_spine_lift(g, (h - 1) as nat, tables, head, spine, from);
        lemma_apply_spine_step((h - 1) as nat, tables, head, spine, from);
    }
}

/// A spine with one more application is applied by applying the spine,
/// and what comes of it to the last argument.
proof fn lemma_apply_spine_push(
    fuel: nat,
    tables: TablesV,
    head: ArcValueV,
    spine: Seq<ElimV>,
    last: ArcValueV,
    from: int,
)
    requires
        0 <= from <= spine.len(),
    ensures
        apply_spine(fuel, tables, head, spine.push(ElimV::FunApp(last)), from) == match apply_spine(
            fuel,
            tables,
            head,
            spine,
            from,
        ) {
            Ok(applied) => fun_app(fuel, tables, applied, last),
            Err(stop) => Err(stop),
        },
    decreases spine.len() - from,
{
    let pushed = spine.push(ElimV::FunApp(last));
    if from < spine.len() {
        assert(pushed[from] == spine[from]);
        let applied = match spine[from] {
            ElimV::FunApp(arg) => fun_app(fuel, tables, head, arg),
            ElimV::RecordProj(label) => crate::core_lang::model::record_proj(head, label),
            ElimV::ConstMatch(branches) => crate::core_lang::model::const_match(
                fuel,
                tables,
                head,
                branches,
            ),
        };
        match applied {
            Ok(next) => {
                lemma_apply_spine_push(fuel, tables, next, spine, last, from + 1);
            },
            Err(_) => {},
        }
    } else {
        assert(pushed[from] == ElimV::FunApp(last));
        match fun_app(fuel, tables, head, last) {
            Ok(next) => {
                assert(apply_spine(fuel, tables, next, pushed, from + 1) == Ok::<ArcValueV, Stop>(
                    next,
                ));
            },
            Err(_) => {},
        }
    }
}

/// A term under as many function literals as a spine has applications,
/// applied to the spine, is the term evaluated with the arguments of the
/// spine bound: within some budget.
proof fn lemma_apply_intros(
    fuel: nat,
    tables: TablesV,
    env: Seq<ArcValueV>,
    body: TermV,
    spine: Seq<ElimV>,
    count: nat,
) -> (budget: nat)
    requires
        count <= spine.len(),
        forall|i: int| 0 <= i < count ==> (#[trigger] spine[i]) is FunApp,
        env.len() + count <= max_len(),
        eval(fuel, tables, env + spine_args(spine, count), body) is Ok,
    ensures
        eval(budget, tables, env, fun_intros(count, body)) is Ok,
        apply_spine(
            budget,
            tables,
            eval(budget, tables, env, fun_intros(count, body))->Ok_0,
            spine.take(count as int),
            0,
        ) == eval(fuel, tables, env + spine_args(spine, count), body),
    decreases count,
{
    if count == 0 {
        assert(env + spine_args(spine, 0) =~= env);
        fuel
    } else {
        let k = (count - 1) as nat;
        let wrapped = TermV::FunLit(body.span(), None, Box::new(body));
        let inner = env + spine_args(spine, k);
        let closure = ClosureV { local_exprs: inner, term: body };
        let lit = spanned(body.span(), ValueV::FunLit(None, closure));
        assert(eval(1, tables, inner, wrapped) == Ok::<ArcValueV, Stop>(lit));
        let first = lemma_apply_intros(1, tables, env, wrapped, spine, k);
        assert(fun_intros(count, body) == fun_intros(k, wrapped));
        let head = eval(first, tables, env, fun_intros(k, wrapped))->Ok_0;
        let last = app_arg(spine[k as int])->0;
        assert(spine[k as int] == ElimV::FunApp(last));
        assert(inner.push(last) =~= env + spine_args(spine, count));
        let budget = larger(first, fuel + 2);
        lemma_eval_lift(first, budget, tables, env, fun_intros(k, wrapped));
        lemma_apply_spine_lift(first, budget, tables, head, spine.take(k as int), 0);
        lemma_eval_lift(fuel, (budget - 2) as nat, tables, inner.push(last), body);
        assert(spine.take(count as int) =~= spine.take(k as int).push(ElimV::FunApp(last)));
        lemma_apply_spine_push(budget, tables, head, spine.take(k as int), last, 0);
        assert(apply_closure((budget - 1) as nat, tables, closure, last) == eval(
            (budget - 2) as nat,
            tables,
            inner.push(last),
            body,
        ));
        assert(fun_app(budget, tables, lit, last) == apply_closure(
            (budget - 1) as nat,
            tables,
            closure,
            last,
        ));
        budget
    }
}

/// The solution that solving stores for the metavariable.
pub open spec fn solution_of(
    fuel: nat,
    items: Seq<ArcValueV>,
    metas: MetasV,
    meta_var: Level,
    spine: Seq<ElimV>,
    value: ArcValueV,
) -> ArcValueV {
    solve(fuel, items, metas, spine.len(), meta_var, spine, value)->Ok_0[meta_var.0 as int]->Some_0
}

/// The term of the solution of a metavariable that is applied to the local
/// variables in order.
pub open spec fn solution_term(
    fuel: nat,
    items: Seq<ArcValueV>,
    metas: MetasV,
    meta_var: Level,
    spine: Seq<ElimV>,
    value: ArcValueV,
) -> TermV {
    rename(
        fuel,
        tables(items, metas),
        meta_var,
        prefix_renaming(spine.len(), spine.len()),
        value,
    )->Ok_0
}

/// Solving a metavariable that is applied to the local variables in order
/// stores a solution that, applied to them, is read back into the term
/// that the value is read back into: within some budget.
proof fn lemma_solve_quotes(
    fuel: nat,
    items: Seq<ArcValueV>,
    metas: MetasV,
    meta_var: Level,
    spine: Seq<ElimV>,
    value: ArcValueV,
) -> (top: nat)
    requires
        are_settled_tables(tables(items, metas)),
        is_settled(metas, value.value),
        is_variables_spine(spine),
        solve(fuel, items, metas, spine.len(), meta_var, spine, value) is Ok,
        is_plain(solution_term(fuel, items, metas, meta_var, spine, value)),
    ensures
        top > 0,
        meta_var.0 < metas.len(),
        rename(
            fuel,
            tables(items, metas),
            meta_var,
            prefix_renaming(spine.len(), spine.len()),
            value,
        ) is Ok,
        eval(
            fuel,
            tables(items, metas),
            Seq::empty(),
            fun_intros(spine.len(), solution_term(fuel, items, metas, meta_var, spine, value)),
        ) == Ok::<ArcValueV, Stop>(solution_of(fuel, items, metas, meta_var, spine, value)),
        solve(fuel, items, metas, spine.len(), meta_var, spine, value) == Ok::<MetasV, Failure>(
            metas.update(
                meta_var.0 as int,
                Some(solution_of(fuel, items, metas, meta_var, spine, value)),
            ),
        ),
        apply_spine(
            top,
            tables(items, metas),
            solution_of(fuel, items, metas, meta_var, spine, value),
            spine,
            0,
        ) matches Ok(applied) && quote(top, tables(items, metas), spine.len(), false, applied)
            is Ok && quote(top, tables(items, metas), spine.len(), false, applied) == quote(
            top,
            tables(items, metas),
            spine.len(),
            false,
            value,
        ),
{
    let tables = tables(items, metas);
    let n = spine.len();
    let renaming = prefix_renaming(n, n);
    assert(empty_renaming(n).source =~= prefix_renaming(n, 0).source);
    assert(empty_renaming(n) == prefix_renaming(n, 0));
    if fuel > 0 {
        lemma_init_renaming(fuel, tables, spine, 0);
    }
    assert(init_renaming(fuel, tables, spine, 0, empty_renaming(n)) == Ok::<
        RenamingV,
        Failure,
    >(renaming));
    let term = rename(fuel, tables, meta_var, renaming, value)->Ok_0;
    assert(is_identity(renaming));
    lemma_rename(fuel, tables, meta_var, renaming, value);
    let solution = eval(fuel, tables, Seq::empty(), fun_intros(n, term))->Ok_0;
    let locals = spine_args(spine, n);
    assert(are_variables(locals));
    let g = lemma_requote(fuel, tables, locals, value);
    let back = eval(g, tables, locals, term)->Ok_0;
    assert(Seq::<ArcValueV>::empty() + spine_args(spine, n) =~= locals);
    let b = lemma_apply_intros(g, tables, Seq::empty(), term, spine, n);
    assert(spine.take(n as int) =~= spine);
    let top = larger(larger(fuel, g), b);
    lemma_eval_lift(fuel, top, tables, Seq::empty(), fun_intros(n, term));
    lemma_eval_lift(b, top, tables, Seq::empty(), fun_intros(n, term));
    lemma_apply_spine_lift(b, top, tables, solution, spine, 0);
    lemma_quote_lift(fuel, top, tables, n, value);
    lemma_quote_lift(g, top, tables, n, back);
    top
}

/// Solving a metavariable that is applied to the local variables in order
/// stores a solution that, applied to them, is convertible to the value it
/// was solved against: there is a budget within which the application
/// yields a value and the comparison of that value says yes, under the
/// solutions that were there. This holds where the items, the solutions
/// and the value are settled, and where the term of the solution is plain.
pub proof fn lemma_solve_variables(
    fuel: nat,
    items: Seq<ArcValueV>,
    metas: MetasV,
    meta_var: Level,
    spine: Seq<ElimV>,
    value: ArcValueV,
) -> (budget: nat)
    requires
        are_settled_tables(tables(items, metas)),
        is_settled(metas, value.value),
        is_variables_spine(spine),
        solve(fuel, items, metas, spine.len(), meta_var, spine, value) is Ok,
        is_plain(solution_term(fuel, items, metas, meta_var, spine, value)),
    ensures
        apply_spine(
            budget,
            tables(items, metas),
            solution_of(fuel, items, metas, meta_var, spine, value),
            spine,
            0,
        ) matches Ok(applied) && is_equal(
            budget,
            tables(items, metas),
            spine.len(),
            applied,
            value,
        ) == Ok::<bool, Stop>(true),
{
    let tables = tables(items, metas);
    let top = lemma_solve_quotes(fuel, items, metas, meta_var, spine, value);
    let solution = solution_of(fuel, items, metas, meta_var, spine, value);
    let applied = apply_spine(top, tables, solution, spine, 0)->Ok_0;
    lemma_same_quote(top, tables, spine.len(), false, applied, value);
    top
}

/// A term under function literals avoids a metavariable that it avoids.
proof fn lemma_intros_avoid(meta_var: Level, count: nat, term: TermV)
    requires
        term_avoids(meta_var, term),
    ensures
        term_avoids(meta_var, fun_intros(count, term)),
    decreases count,
{
    if count > 0 {
        lemma_intros_avoid(
            meta_var,
            (count - 1) as nat,
            TermV::FunLit(term.span(), None, Box::new(term)),
        );
    }
}

/// The variables of a spine avoid every metavariable.
proof fn lemma_variables_avoid(meta_var: Level, spine: Seq<ElimV>)
    requires
        is_variables_spine(spine),
    ensures
        spine_avoids(meta_var, spine),
{
    assert forall|i: int| 0 <= i < spine.len() implies crate::core_lang::occurs::elim_avoids(
        meta_var,
        #[trigger] spine[i],
    ) by {
        lemma_stuck_avoids(meta_var, Head::LocalVar(Level(i as u16)), Seq::empty());
    }
}

/// Unification is sound where it solves a metavariable that is applied to
/// the local variables in order: once the solution is stored, the
/// metavariable applied to the variables is convertible to the value it
/// was solved against. There is a budget within which their comparison
/// says yes, under the solutions with the new one.
///
/// This holds where the metavariable occurs neither in the value nor in
/// the items and the other solutions; where the items, the solutions and
/// the value are settled; and where the term of the solution is plain.
pub proof fn lemma_solve_sound(
    fuel: nat,
    items: Seq<ArcValueV>,
    metas: MetasV,
    meta_var: Level,
    spine: Seq<ElimV>,
    value: ArcValueV,
    flexible: ArcValueV,
) -> (budget: nat)
    requires
        are_settled_tables(tables(items, metas)),
        is_settled(metas, value.value),
        is_variables_spine(spine),
        flexible.value == ValueV::Stuck(Head::MetaVar(meta_var), spine),
        tables_avoid(meta_var, tables(items, metas)),
        avoids(meta_var, value.value),
        solve(fuel, items, metas, spine.len(), meta_var, spine, value) is Ok,
        is_plain(solution_term(fuel, items, metas, meta_var, spine, value)),
    ensures
        is_equal(
            budget,
            tables(items, solve(fuel, items, metas, spine.len(), meta_var, spine, value)->Ok_0),
            spine.len(),
            flexible,
            value,
        ) == Ok::<bool, Stop>(true),
{
    let n = spine.len();
    let tables0 = tables(items, metas);
    let top = lemma_solve_quotes(fuel, items, metas, meta_var, spine, value);
    let solution = solution_of(fuel, items, metas, meta_var, spine, value);
    let solved = metas.update(meta_var.0 as int, Some(solution));
    let tables1 = tables(items, solved);
    let term = solution_term(fuel, items, metas, meta_var, spine, value);
    let applied = apply_spine(top, tables0, solution, spine, 0)->Ok_0;
    assert(agree(meta_var, tables0, tables1));
    lemma_renamed_avoids(
        fuel,
        tables0,
        meta_var,
        prefix_renaming(n, n),
        value,
    );
    lemma_intros_avoid(meta_var, n, term);
    assert(all_avoid(meta_var, Seq::<ArcValueV>::empty()));
    lemma_eval_avoids(fuel, meta_var, tables0, tables0, Seq::empty(), fun_intros(n, term));
    lemma_variables_avoid(meta_var, spine);
    lemma_apply_spine_avoids(top, meta_var, tables0, tables1, solution, spine, 0);
    lemma_quote_avoids(top, meta_var, tables0, tables1, n, applied);
    lemma_quote_avoids(top, meta_var, tables0, tables1, n, value);
    lemma_same_quote(top, tables1, n, false, applied, value);
    lemma_step_in(top, tables1, n, meta_var, spine, flexible, solution, applied, value);
    top + 2
}

/// A value that one step of forcing takes to another is compared as the
/// other is, within a budget of two more.
proof fn lemma_step_in(
    top: nat,
    tables: TablesV,
    len: nat,
    meta_var: Level,
    spine: Seq<ElimV>,
    flexible: ArcValueV,
    solution: ArcValueV,
    applied: ArcValueV,
    value: ArcValueV,
)
    requires
        flexible.value == ValueV::Stuck(Head::MetaVar(meta_var), spine),
        meta_var.0 < tables.metas.len(),
        tables.metas[meta_var.0 as int] == Some(solution),
        apply_spine(top, tables, solution, spine, 0) == Ok::<ArcValueV, Stop>(applied),
        is_equal(top, tables, len, applied, value) == Ok::<bool, Stop>(true),
    ensures
        is_equal(top + 2, tables, len, flexible, value) == Ok::<bool, Stop>(true),
{
    lemma_is_equal_stable(top, 2, tables, len, applied, value);
    assert(top > 0);
    let below = (top - 1) as nat;
    assert(force(below, tables, applied) is Ok);
    lemma_force_stable(below, 1, tables, applied);
    lemma_force_stable(below, 2, tables, applied);
    assert(force_step(top, tables, flexible) == Ok::<Option<ArcValueV>, Stop>(Some(applied)));
    assert(force(top + 1, tables, flexible) == force(top, tables, applied));
    assert(force(top + 1, tables, flexible) == force(top + 1, tables, applied));
}

/// Whether a renaming gave a term that the metavariable does not occur
/// in.
pub open spec fn is_avoiding(meta_var: Level, renamed: Result<TermV, Failure>) -> bool {
    match renamed {
        Ok(term) => term_avoids(meta_var, term),
        Err(_) => true,
    }
}

/// The metavariable that is solved does not occur in the term that a value
/// is renamed into.
pub proof fn lemma_renamed_avoids(
    fuel: nat,
    tables: TablesV,
    meta_var: Level,
    renaming: RenamingV,
    value: ArcValueV,
)
    ensures
        is_avoiding(meta_var, rename(fuel, tables, meta_var, renaming, value)),
    decreases fuel, 0nat, 0nat,
{
    if fuel > 0 {
        let f = (fuel - 1) as nat;
        match force(f, tables, value) {
            Ok(forced) => {
                lemma_renamed_forced_avoids(f, tables, meta_var, renaming, forced);
            },
            Err(_) => {},
        }
    }
}

proof fn lemma_renamed_forced_avoids(
    fuel: nat,
    tables: TablesV,
    meta_var: Level,
    renaming: RenamingV,
    value: ArcValueV,
)
    ensures
        is_avoiding(meta_var, rename_forced(fuel, tables, meta_var, renaming, value)),
    decreases fuel, 5nat, 0nat,
{
    let span = value.span;
    match value.value {
        ValueV::Stuck(head, spine) => {
            match rename_head(meta_var, renaming, span, head) {
                Ok(head_term) => {
                    lemma_renamed_spine_avoids(
                        fuel,
                        tables,
                        meta_var,
                        renaming,
                        span,
                        head_term,
                        spine,
                        0,
                    );
                },
                Err(_) => {},
            }
        },
        ValueV::FunType(_, param_type, body_type) => {
            lemma_renamed_avoids(fuel, tables, meta_var, renaming, *param_type);
            lemma_renamed_closure_avoids(fuel, tables, meta_var, renaming, body_type);
        },
        ValueV::FunLit(_, body_expr) => {
            lemma_renamed_closure_avoids(fuel, tables, meta_var, renaming, body_expr);
        },
        ValueV::RecordType(labels, types) => {
            lemma_renamed_telescope_avoids(fuel, tables, meta_var, renaming, types);
            match rename_telescope(fuel, tables, meta_var, renaming, types) {
                Ok(terms) => {
                    let term = TermV::RecordType(span, labels, terms);
                    assert forall|i: int| 0 <= i < terms.len() implies term_avoids(
                        meta_var,
                        #[trigger] term->RecordType_2[i],
                    ) by {
                        assert(term_avoids(meta_var, terms[i]));
                    }
                },
                Err(_) => {},
            }
        },
        ValueV::RecordLit(labels, exprs) => {
            lemma_renamed_all_avoids(fuel, tables, meta_var, renaming, exprs, 0);
            match rename_all(fuel, tables, meta_var, renaming, exprs, 0) {
                Ok(terms) => {
                    let term = TermV::RecordLit(span, labels, terms);
                    assert forall|i: int| 0 <= i < terms.len() implies term_avoids(
                        meta_var,
                        #[trigger] term->RecordLit_2[i],
                    ) by {
                        assert(term_avoids(meta_var, terms[i]));
                    }
                },
                Err(_) => {},
            }
        },
        ValueV::ArrayLit(exprs) => {
            lemma_renamed_all_avoids(fuel, tables, meta_var, renaming, exprs, 0);
            match rename_all(fuel, tables, meta_var, renaming, exprs, 0) {
                Ok(terms) => {
                    let term = TermV::ArrayLit(span, terms);
                    assert forall|i: int| 0 <= i < terms.len() implies term_avoids(
                        meta_var,
                        #[trigger] term->ArrayLit_1[i],
                    ) by {
                        assert(term_avoids(meta_var, terms[i]));
                    }
                },
                Err(_) => {},
            }
        },
        ValueV::FormatRecord(labels, formats) => {
            lemma_renamed_telescope_avoids(fuel, tables, meta_var, renaming, formats);
            match rename_telescope(fuel, tables, meta_var, renaming, formats) {
                Ok(terms) => {
                    let term = TermV::FormatRecord(span, labels, terms);
                    assert forall|i: int| 0 <= i < terms.len() implies term_avoids(
                        meta_var,
                        #[trigger] term->FormatRecord_2[i],
                    ) by {
                        assert(term_avoids(meta_var, terms[i]));
                    }
                },
                Err(_) => {},
            }
        },
        ValueV::FormatCond(_, format, cond) => {
            lemma_renamed_avoids(fuel, tables, meta_var, renaming, *format);
            lemma_renamed_closure_avoids(fuel, tables, meta_var, renaming, cond);
        },
        ValueV::FormatOverlap(labels, formats) => {
            lemma_renamed_telescope_avoids(fuel, tables, meta_var, renaming, formats);
            match rename_telescope(fuel, tables, meta_var, renaming, formats) {
                Ok(terms) => {
                    let term = TermV::FormatOverlap(span, labels, terms);
                    assert forall|i: int| 0 <= i < terms.len() implies term_avoids(
                        meta_var,
                        #[trigger] term->FormatOverlap_2[i],
                    ) by {
                        assert(term_avoids(meta_var, terms[i]));
                    }
                },
                Err(_) => {},
            }
        },
        _ => {},
    }
}

proof fn lemma_renamed_spine_avoids(
    fuel: nat,
    tables: TablesV,
    meta_var: Level,
    renaming: RenamingV,
    span: Span,
    head: TermV,
    spine: Seq<ElimV>,
    from: int,
)
    requires
        term_avoids(meta_var, head),
    ensures
        is_avoiding(
            meta_var,
            rename_spine(fuel, tables, meta_var, renaming, span, head, spine, from),
        ),
    decreases fuel, 4nat, spine.len() - from,
{
    if !(from < 0 || from >= spine.len()) {
        match spine[from] {
            ElimV::FunApp(arg) => {
                lemma_renamed_avoids(fuel, tables, meta_var, renaming, arg);
            },
            ElimV::RecordProj(_) => {},
            ElimV::ConstMatch(branches) => {
                lemma_renamed_branches_avoids(fuel, tables, meta_var, renaming, branches);
                match rename_branches(fuel, tables, meta_var, renaming, branches) {
                    Ok((terms, default_expr)) => {
                        let term = TermV::ConstMatch(
                            span,
                            Box::new(head),
                            terms,
                            match default_expr {
                                Some(expr) => Some(Box::new(expr)),
                                None => None,
                            },
                        );
                        assert forall|i: int| 0 <= i < terms.len() implies term_avoids(
                            meta_var,
                            (#[trigger] term->ConstMatch_2[i]).1,
                        ) by {
                            assert(term_avoids(meta_var, terms[i].1));
                        }
                    },
                    Err(_) => {},
                }
            },
        }
        match rename_elim(fuel, tables, meta_var, renaming, span, head, spine[from]) {
            Ok(next) => {
                lemma_renamed_spine_avoids(
                    fuel,
                    tables,
                    meta_var,
                    renaming,
                    span,
                    next,
                    spine,
                    from + 1,
                );
            },
            Err(_) => {},
        }
    }
}

proof fn lemma_renamed_branches_avoids(
    fuel: nat,
    tables: TablesV,
    meta_var: Level,
    renaming: RenamingV,
    branches: BranchesV,
)
    ensures
        rename_branches(fuel, tables, meta_var, renaming, branches) matches Ok(
            (terms, default_expr),
        ) ==> branches_avoid(meta_var, terms, default_expr),
    decreases fuel, 2nat, branches.pattern_branches.len(),
{
    match split_branches(fuel, tables, branches) {
        Ok(SplitBranchesV::Branch((constant, body), next)) => {
            lemma_renamed_avoids(fuel, tables, meta_var, renaming, body);
            lemma_renamed_branches_avoids(fuel, tables, meta_var, renaming, next);
            match (
                rename(fuel, tables, meta_var, renaming, body),
                rename_branches(fuel, tables, meta_var, renaming, next),
            ) {
                (Ok(term), Ok((rest, _))) => {
                    let all = seq![(constant, term)] + rest;
                    assert forall|i: int| 0 <= i < all.len() implies term_avoids(
                        meta_var,
                        (#[trigger] all[i]).1,
                    ) by {
                        if i > 0 {
                            assert(all[i] == rest[i - 1]);
                        }
                    }
                },
                _ => {},
            }
        },
        Ok(SplitBranchesV::Default(default_expr)) => {
            lemma_renamed_closure_avoids(fuel, tables, meta_var, renaming, default_expr);
        },
        _ => {},
    }
}

proof fn lemma_renamed_closure_avoids(
    fuel: nat,
    tables: TablesV,
    meta_var: Level,
    renaming: RenamingV,
    closure: ClosureV,
)
    ensures
        is_avoiding(meta_var, rename_closure(fuel, tables, meta_var, renaming, closure)),
    decreases fuel, 1nat, 0nat,
{
    match apply_closure(fuel, tables, closure, fresh_var(renaming.source.len())) {
        Ok(value) => {
            if has_room(renaming) {
                lemma_renamed_avoids(fuel, tables, meta_var, push_local(renaming), value);
            }
        },
        Err(_) => {},
    }
}

proof fn lemma_renamed_telescope_avoids(
    fuel: nat,
    tables: TablesV,
    meta_var: Level,
    renaming: RenamingV,
    telescope: TelescopeV,
)
    ensures
        rename_telescope(fuel, tables, meta_var, renaming, telescope) matches Ok(terms)
            ==> terms_avoid(meta_var, terms),
    decreases fuel, 1nat, telescope.terms.len(),
{
    match split_telescope(fuel, tables, telescope) {
        Ok(Some((value, rest))) => {
            lemma_renamed_avoids(fuel, tables, meta_var, renaming, value);
            if has_room(renaming) {
                let next = resume_telescope(rest, fresh_var(renaming.source.len()));
                lemma_renamed_telescope_avoids(
                    fuel,
                    tables,
                    meta_var,
                    push_local(renaming),
                    next,
                );
                match (
                    rename(fuel, tables, meta_var, renaming, value),
                    rename_telescope(fuel, tables, meta_var, push_local(renaming), next),
                ) {
                    (Ok(term), Ok(terms)) => {
                        let all = seq![term] + terms;
                        assert forall|i: int| 0 <= i < all.len() implies term_avoids(
                            meta_var,
                            #[trigger] all[i],
                        ) by {
                            if i > 0 {
                                assert(all[i] == terms[i - 1]);
                            }
                        }
                    },
                    _ => {},
                }
            }
        },
        _ => {},
    }
}

proof fn lemma_renamed_all_avoids(
    fuel: nat,
    tables: TablesV,
    meta_var: Level,
    renaming: RenamingV,
    values: Seq<ArcValueV>,
    from: int,
)
    ensures
        rename_all(fuel, tables, meta_var, renaming, values, from) matches Ok(terms)
            ==> terms_avoid(meta_var, terms),
    decreases fuel, 1nat, values.len() - from,
{
    if !(from < 0 || from >= values.len()) {
        lemma_renamed_avoids(fuel, tables, meta_var, renaming, values[from]);
        lemma_renamed_all_avoids(fuel, tables, meta_var, renaming, values, from + 1);
        match (
            rename(fuel, tables, meta_var, renaming, values[from]),
            rename_all(fuel, tables, meta_var, renaming, values, from + 1),
        ) {
            (Ok(term), Ok(terms)) => {
                let all = seq![term] + terms;
                assert forall|i: int| 0 <= i < all.len() implies term_avoids(
                    meta_var,
                    #[trigger] all[i],
                ) by {
                    if i > 0 {
                        assert(all[i] == terms[i - 1]);
                    }
                }
            },
            _ => {},
        }
    }
}

/// Unification is sound on a metavariable that is applied to the local
/// variables in order and a value of another shape: where it succeeds, the
/// two are convertible under the solutions that it yields. There is a
/// budget within which their comparison says yes.
///
/// This holds where the metavariable has no solution and occurs neither in
/// the value nor in the items and the other solutions; where the value is
/// neither a function literal nor a record literal, which unification
/// expands, nor a metavariable of a higher level, which it solves instead;
/// where the items, the solutions and the value are settled; and where the
/// term of the solution is plain.
pub proof fn lemma_unify_flexible_sound(
    fuel: nat,
    items: Seq<ArcValueV>,
    metas: MetasV,
    meta_var: Level,
    spine: Seq<ElimV>,
    flexible: ArcValueV,
    value: ArcValueV,
) -> (budget: nat)
    requires
        fuel > 0,
        are_settled_tables(tables(items, metas)),
        is_settled(metas, value.value),
        is_variables_spine(spine),
        flexible.value == ValueV::Stuck(Head::MetaVar(meta_var), spine),
        meta_var.0 < metas.len(),
        metas[meta_var.0 as int] is None,
        tables_avoid(meta_var, tables(items, metas)),
        avoids(meta_var, value.value),
        !(value.value is FunLit),
        !(value.value is RecordLit),
        !is_reported_error(value),
        value.value matches ValueV::Stuck(Head::MetaVar(other), _) ==> other.0 <= meta_var.0,
        unify(fuel, items, metas, spine.len(), flexible, value) is Ok,
        is_plain(solution_term((fuel - 1) as nat, items, metas, meta_var, spine, value)),
    ensures
        is_equal(
            budget,
            tables(items, unify(fuel, items, metas, spine.len(), flexible, value)->Ok_0),
            spine.len(),
            flexible,
            value,
        ) == Ok::<bool, Stop>(true),
{
    let f = (fuel - 1) as nat;
    let n = spine.len();
    let tables0 = tables(items, metas);
    assert(f > 0) by {
        if f == 0 {
            assert(force(f, tables0, flexible) is Err);
        }
    }
    assert(force(f, tables0, flexible) == Ok::<ArcValueV, Stop>(flexible));
    lemma_force_settled(f, tables0, value);
    assert(unify(fuel, items, metas, n, flexible, value) == unify_forced(
        f,
        items,
        metas,
        n,
        flexible,
        value,
    ));
    assert(unify_forced(f, items, metas, n, flexible, value) == unify_flexible(
        f,
        items,
        metas,
        n,
        flexible,
        value,
    ));
    assert(unify_flexible(f, items, metas, n, flexible, value) == solve(
        f,
        items,
        metas,
        n,
        meta_var,
        spine,
        value,
    ));
    lemma_solve_sound(f, items, metas, meta_var, spine, value, flexible)
}

/// The same with the metavariable on the right: unification of a value
/// with a metavariable that is applied to the local variables in order
/// yields, where it succeeds, solutions under which the two are
/// convertible.
pub proof fn lemma_unify_rigid_sound(
    fuel: nat,
    items: Seq<ArcValueV>,
    metas: MetasV,
    meta_var: Level,
    spine: Seq<ElimV>,
    flexible: ArcValueV,
    value: ArcValueV,
) -> (budget: nat)
    requires
        fuel > 0,
        are_settled_tables(tables(items, metas)),
        is_settled(metas, value.value),
        is_variables_spine(spine),
        flexible.value == ValueV::Stuck(Head::MetaVar(meta_var), spine),
        meta_var.0 < metas.len(),
        metas[meta_var.0 as int] is None,
        tables_avoid(meta_var, tables(items, metas)),
        avoids(meta_var, value.value),
        !(value.value is FunLit),
        !(value.value is RecordLit),
        !is_reported_error(value),
        value.value matches ValueV::Stuck(Head::MetaVar(other), _) ==> other.0 <= meta_var.0,
        unify(fuel, items, metas, spine.len(), value, flexible) is Ok,
        is_plain(solution_term((fuel - 1) as nat, items, metas, meta_var, spine, value)),
    ensures
        is_equal(
            budget,
            tables(items, unify(fuel, items, metas, spine.len(), value, flexible)->Ok_0),
            spine.len(),
            value,
            flexible,
        ) == Ok::<bool, Stop>(true),
{
    lemma_unify_symmetric(fuel, items, metas, spine.len(), value, flexible);
    let budget = lemma_unify_flexible_sound(fuel, items, metas, meta_var, spine, flexible, value);
    let solved = unify(fuel, items, metas, spine.len(), flexible, value)->Ok_0;
    lemma_is_equal_symmetric(budget, tables(items, solved), spine.len(), flexible, value);
    budget
}

} // verus!
