//! The table of metavariables: the unknowns that unification solves.

use crate::core_lang::model::ArcValueV;
use crate::core_lang::semantics::{metas_view, ArcValue};
use crate::env::{Level, SliceEnv};
use vstd::prelude::*;

verus! {

/// Why a solution was not recorded.
#[derive(Clone, Copy, PartialEq, Eq, Structural, Debug)]
pub enum SolveError {
    /// The metavariable is not in the table.
    Unbound,
    /// The metavariable has a solution already.
    Solved,
}

/// The table after a solution is recorded for an unsolved metavariable; any
/// other table is left as it is.
pub open spec fn solved(
    metas: Seq<Option<ArcValueV>>,
    var: Level,
    solution: ArcValueV,
) -> Seq<Option<ArcValueV>> {
    if var.0 < metas.len() && metas[var.0 as int] is None {
        metas.update(var.0 as int, Some(solution))
    } else {
        metas
    }
}

/// Metavariables are solved at most once: recording a solution never
/// changes the solution of a metavariable that has one, nor the number of
/// metavariables.
pub proof fn lemma_meta_linearity(
    metas: Seq<Option<ArcValueV>>,
    var: Level,
    solution: ArcValueV,
    other: Level,
)
    requires
        other.0 < metas.len(),
        metas[other.0 as int] is Some,
    ensures
        solved(metas, var, solution).len() == metas.len(),
        solved(metas, var, solution)[other.0 as int] == metas[other.0 as int],
{
}

/// Adds a metavariable without a solution, and gives its level, where the
/// table can hold one more.
pub fn insert_meta<'arena>(metas: &mut SliceEnv<Option<ArcValue<'arena>>>) -> (var: Option<Level>)
    ensures
        match var {
            Some(var) => var.0 == old(metas)@.len() && final(metas)@ == old(metas)@.push(None),
            None => old(metas)@.len() >= u16::MAX && final(metas)@ == old(metas)@,
        },
{
    if metas.is_full() {
        return None;
    }
    let var = metas.len().next_level();
    metas.push(None);
    Some(var)
}

/// Records the solution of a metavariable that has none. A solution that
/// is there is never overwritten.
pub fn solve_meta<'arena>(
    metas: &mut SliceEnv<Option<ArcValue<'arena>>>,
    var: Level,
    solution: ArcValue<'arena>,
) -> (result: Result<(), SolveError>)
    ensures
        metas_view(final(metas)@) == solved(metas_view(old(metas)@), var, solution@),
        match result {
            Ok(()) => var.0 < old(metas)@.len() && old(metas)@[var.0 as int] is None,
            Err(SolveError::Unbound) => var.0 >= old(metas)@.len(),
            Err(SolveError::Solved) => var.0 < old(metas)@.len() && old(metas)@[var.0 as int]
                is Some,
        },
{
    let unsolved = match metas.get_level(var) {
        Some(Some(_)) => Err(SolveError::Solved),
        Some(None) => Ok(()),
        None => Err(SolveError::Unbound),
    };
    match unsolved {
        Ok(()) => {
            metas.set_level(var, Some(solution));
            assert(metas_view(metas@) =~= solved(metas_view(old(metas)@), var, solution@));
            Ok(())
        },
        Err(error) => Err(error),
    }
}

} // verus!
