//! The core language: fully annotated terms, as the elaborator hands them
//! to later stages.
//!
//! The semantics is in [`semantics`], [`elim`], [`step`], [`repr`],
//! [`quote`], [`conversion`], [`unfold`], [`metas`], [`rename`] and
//! [`unification`]. The contract of each of its functions equates what the
//! function yields with a function of [`model`] or of [`unify_model`].
//!
//! What holds of these models is proved in the other modules: that the
//! budget does not change what is computed ([`budget`], [`budget_quote`]);
//! the laws of conversion ([`laws`], [`symmetry`]); that evaluation yields settled values
//! ([`settled`]); that values with one normal form are convertible
//! ([`normal_forms`]); that normalisation is idempotent and sound
//! ([`idempotence`]); that a metavariable that does not occur has no part in
//! what is computed ([`occurs`]); that unification keeps its solutions, is
//! symmetric, and is sound where it solves nothing ([`unify_laws`]) or one
//! metavariable ([`solve_laws`]); and that unfolded terms mention no solved
//! metavariable ([`unfold_laws`]).

use crate::env::{Index, Level};
use crate::source::Span;
use crate::symbol::StringId;
use vstd::prelude::*;
use vstd::std_specs::cmp::PartialEqSpecImpl;

pub mod budget;
pub mod budget_quote;
pub mod conversion;
pub mod elim;
pub mod idempotence;
pub mod laws;
pub mod metas;
pub mod model;
pub mod normal_forms;
pub mod occurs;
pub mod prim;
pub mod quote;
pub mod rename;
pub mod repr;
pub mod semantics;
pub mod settled;
pub mod solve_laws;
pub mod step;
pub mod symmetry;
pub mod unfold;
pub mod unfold_laws;
pub mod unification;
pub mod unify_laws;
pub mod unify_model;

verus! {

/// How an unsigned integer literal was written.
#[derive(Clone, Copy, PartialEq, Eq, Structural, Debug)]
pub enum UIntStyle {
    Binary,
    Decimal,
    Hexadecimal,
    Ascii,
}

impl UIntStyle {
    /// The style of a number computed from two others: their common style,
    /// and decimal where they differ.
    pub open spec fn spec_merge(left: UIntStyle, right: UIntStyle) -> UIntStyle {
        if left == right {
            left
        } else {
            UIntStyle::Decimal
        }
    }

    pub fn merge(left: UIntStyle, right: UIntStyle) -> (style: UIntStyle)
        ensures
            style == UIntStyle::spec_merge(left, right),
    {
        match (left, right) {
            (UIntStyle::Binary, UIntStyle::Binary) => UIntStyle::Binary,
            (UIntStyle::Decimal, UIntStyle::Decimal) => UIntStyle::Decimal,
            (UIntStyle::Hexadecimal, UIntStyle::Hexadecimal) => UIntStyle::Hexadecimal,
            (UIntStyle::Ascii, UIntStyle::Ascii) => UIntStyle::Ascii,
            (_, _) => UIntStyle::Decimal,
        }
    }
}

/// Constants.
#[derive(Clone, Copy, Debug)]
pub enum Const {
    Bool(bool),
    U8(u8, UIntStyle),
    U16(u16, UIntStyle),
    U32(u32, UIntStyle),
    U64(u64, UIntStyle),
    S8(i8),
    S16(i16),
    S32(i32),
    S64(i64),
    /// A byte offset in the data that is parsed.
    Pos(usize),
}

impl Const {
    /// Two constants are the same when they are of the same type and hold the
    /// same number, however they were written.
    pub open spec fn same(self, other: Const) -> bool {
        match (self, other) {
            (Const::Bool(a), Const::Bool(b)) => a == b,
            (Const::U8(a, _), Const::U8(b, _)) => a == b,
            (Const::U16(a, _), Const::U16(b, _)) => a == b,
            (Const::U32(a, _), Const::U32(b, _)) => a == b,
            (Const::U64(a, _), Const::U64(b, _)) => a == b,
            (Const::S8(a), Const::S8(b)) => a == b,
            (Const::S16(a), Const::S16(b)) => a == b,
            (Const::S32(a), Const::S32(b)) => a == b,
            (Const::S64(a), Const::S64(b)) => a == b,
            (Const::Pos(a), Const::Pos(b)) => a == b,
            (_, _) => false,
        }
    }
}

impl PartialEq for Const {
    fn eq(&self, other: &Const) -> (equal: bool) {
        match (*self, *other) {
            (Const::Bool(a), Const::Bool(b)) => a == b,
            (Const::U8(a, _), Const::U8(b, _)) => a == b,
            (Const::U16(a, _), Const::U16(b, _)) => a == b,
            (Const::U32(a, _), Const::U32(b, _)) => a == b,
            (Const::U64(a, _), Const::U64(b, _)) => a == b,
            (Const::S8(a), Const::S8(b)) => a == b,
            (Const::S16(a), Const::S16(b)) => a == b,
            (Const::S32(a), Const::S32(b)) => a == b,
            (Const::S64(a), Const::S64(b)) => a == b,
            (Const::Pos(a), Const::Pos(b)) => a == b,
            (_, _) => false,
        }
    }
}

impl PartialEqSpecImpl for Const {
    open spec fn obeys_eq_spec() -> bool {
        true
    }

    open spec fn eq_spec(&self, other: &Const) -> bool {
        self.same(*other)
    }
}

/// Primitives: the built-in types, formats and operations.
#[derive(Clone, Copy, PartialEq, Eq, Structural, Debug)]
pub enum Prim {
    VoidType,
    BoolType,
    U8Type,
    U16Type,
    U32Type,
    U64Type,
    S8Type,
    S16Type,
    S32Type,
    S64Type,
    F32Type,
    F64Type,
    OptionType,
    ArrayType,
    Array8Type,
    Array16Type,
    Array32Type,
    Array64Type,
    PosType,
    RefType,
    FormatType,
    FormatU8,
    FormatU16Be,
    FormatU16Le,
    FormatU32Be,
    FormatU32Le,
    FormatU64Be,
    FormatU64Le,
    FormatS8,
    FormatS16Be,
    FormatS16Le,
    FormatS32Be,
    FormatS32Le,
    FormatS64Be,
    FormatS64Le,
    FormatF32Be,
    FormatF32Le,
    FormatF64Be,
    FormatF64Le,
    FormatArray8,
    FormatArray16,
    FormatArray32,
    FormatArray64,
    FormatRepeatUntilEnd,
    FormatLimit8,
    FormatLimit16,
    FormatLimit32,
    FormatLimit64,
    FormatLink,
    FormatDeref,
    FormatStreamPos,
    FormatSucceed,
    FormatFail,
    FormatUnwrap,
    FormatRepr,
    Absurd,
    BoolEq,
    BoolNeq,
    BoolNot,
    BoolAnd,
    BoolOr,
    BoolXor,
    U8Eq,
    U8Neq,
    U8Gt,
    U8Lt,
    U8Gte,
    U8Lte,
    U8Add,
    U8Sub,
    U8Mul,
    U8Div,
    U8Not,
    U8Shl,
    U8Shr,
    U8And,
    U8Or,
    U8Xor,
    U16Eq,
    U16Neq,
    U16Gt,
    U16Lt,
    U16Gte,
    U16Lte,
    U16Add,
    U16Sub,
    U16Mul,
    U16Div,
    U16Not,
    U16Shl,
    U16Shr,
    U16And,
    U16Or,
    U16Xor,
    U32Eq,
    U32Neq,
    U32Gt,
    U32Lt,
    U32Gte,
    U32Lte,
    U32Add,
    U32Sub,
    U32Mul,
    U32Div,
    U32Not,
    U32Shl,
    U32Shr,
    U32And,
    U32Or,
    U32Xor,
    U64Eq,
    U64Neq,
    U64Gt,
    U64Lt,
    U64Gte,
    U64Lte,
    U64Add,
    U64Sub,
    U64Mul,
    U64Div,
    U64Not,
    U64Shl,
    U64Shr,
    U64And,
    U64Or,
    U64Xor,
    S8Eq,
    S8Neq,
    S8Gt,
    S8Lt,
    S8Gte,
    S8Lte,
    S8Neg,
    S8Add,
    S8Sub,
    S8Mul,
    S8Div,
    S8Abs,
    S8UAbs,
    S16Eq,
    S16Neq,
    S16Gt,
    S16Lt,
    S16Gte,
    S16Lte,
    S16Neg,
    S16Add,
    S16Sub,
    S16Mul,
    S16Div,
    S16Abs,
    S16UAbs,
    S32Eq,
    S32Neq,
    S32Gt,
    S32Lt,
    S32Gte,
    S32Lte,
    S32Neg,
    S32Add,
    S32Sub,
    S32Mul,
    S32Div,
    S32Abs,
    S32UAbs,
    S64Eq,
    S64Neq,
    S64Gt,
    S64Lt,
    S64Gte,
    S64Lte,
    S64Neg,
    S64Add,
    S64Sub,
    S64Mul,
    S64Div,
    S64Abs,
    S64UAbs,
    OptionSome,
    OptionNone,
    OptionFold,
    Array8Find,
    Array16Find,
    Array32Find,
    Array64Find,
    Array8Index,
    Array16Index,
    Array32Index,
    Array64Index,
    PosAddU8,
    PosAddU16,
    PosAddU32,
    PosAddU64,
    ReportedError,
}

/// Whether a binding in scope is a definition or a parameter.
#[derive(Clone, Copy, PartialEq, Eq, Structural, Debug)]
pub enum LocalInfo {
    /// The binding has a definition, so a metavariable need not abstract it.
    Def,
    /// The binding is a parameter, to which a metavariable is applied.
    Param,
}

/// Core language terms. Subterms live in an arena of lifetime `'arena`.
#[derive(Debug)]
pub enum Term<'arena> {
    /// An item of the module, by level.
    ItemVar(Span, Level),
    /// A local binding, by index.
    LocalVar(Span, Index),
    /// A metavariable, by level.
    MetaVar(Span, Level),
    /// A metavariable that was inserted in a scope of bindings of the given
    /// kinds, the oldest first.
    InsertedMeta(Span, Level, &'arena [LocalInfo]),
    /// An expression annotated with its type.
    Ann(Span, &'arena Term<'arena>, &'arena Term<'arena>),
    /// A definition: its name, type and expression, and the term it scopes
    /// over.
    Let(Span, Option<StringId>, &'arena Term<'arena>, &'arena Term<'arena>, &'arena Term<'arena>),
    /// The type of types.
    Universe(Span),
    /// A dependent function type.
    FunType(Span, Option<StringId>, &'arena Term<'arena>, &'arena Term<'arena>),
    /// A function literal.
    FunLit(Span, Option<StringId>, &'arena Term<'arena>),
    /// A function application.
    FunApp(Span, &'arena Term<'arena>, &'arena Term<'arena>),
    /// A dependent record type.
    RecordType(Span, &'arena [StringId], &'arena Vec<Term<'arena>>),
    /// A record literal.
    RecordLit(Span, &'arena [StringId], &'arena Vec<Term<'arena>>),
    /// A projection from a record.
    RecordProj(Span, &'arena Term<'arena>, StringId),
    /// An array literal.
    ArrayLit(Span, &'arena Vec<Term<'arena>>),
    /// A record format, in which each format may depend on the fields parsed
    /// before it.
    FormatRecord(Span, &'arena [StringId], &'arena Vec<Term<'arena>>),
    /// A format with a condition on the parsed value.
    FormatCond(Span, StringId, &'arena Term<'arena>, &'arena Term<'arena>),
    /// A record format whose fields overlap in the data.
    FormatOverlap(Span, &'arena [StringId], &'arena Vec<Term<'arena>>),
    /// A primitive.
    Prim(Span, Prim),
    /// A constant.
    ConstLit(Span, Const),
    /// A match on a constant, with a default that binds the scrutinee.
    ConstMatch(
        Span,
        &'arena Term<'arena>,
        &'arena Vec<(Const, Term<'arena>)>,
        Option<&'arena Term<'arena>>,
    ),
}

/// The mathematical model of a [`Term`]: the same tree, with sequences in
/// place of the vectors and slices in the arena.
pub ghost enum TermV {
    ItemVar(Span, Level),
    LocalVar(Span, Index),
    MetaVar(Span, Level),
    InsertedMeta(Span, Level, Seq<LocalInfo>),
    Ann(Span, Box<TermV>, Box<TermV>),
    Let(Span, Option<StringId>, Box<TermV>, Box<TermV>, Box<TermV>),
    Universe(Span),
    FunType(Span, Option<StringId>, Box<TermV>, Box<TermV>),
    FunLit(Span, Option<StringId>, Box<TermV>),
    FunApp(Span, Box<TermV>, Box<TermV>),
    RecordType(Span, Seq<StringId>, Seq<TermV>),
    RecordLit(Span, Seq<StringId>, Seq<TermV>),
    RecordProj(Span, Box<TermV>, StringId),
    ArrayLit(Span, Seq<TermV>),
    FormatRecord(Span, Seq<StringId>, Seq<TermV>),
    FormatCond(Span, StringId, Box<TermV>, Box<TermV>),
    FormatOverlap(Span, Seq<StringId>, Seq<TermV>),
    Prim(Span, Prim),
    ConstLit(Span, Const),
    ConstMatch(Span, Box<TermV>, Seq<(Const, TermV)>, Option<Box<TermV>>),
}

/// The model of a term.
pub open spec fn term_view(term: &Term) -> TermV
    decreases term,
{
    match term {
        Term::ItemVar(span, var) => TermV::ItemVar(*span, *var),
        Term::LocalVar(span, var) => TermV::LocalVar(*span, *var),
        Term::MetaVar(span, var) => TermV::MetaVar(*span, *var),
        Term::InsertedMeta(span, var, infos) => TermV::InsertedMeta(*span, *var, infos@),
        Term::Ann(span, expr, ty) => TermV::Ann(
            *span,
            Box::new(term_view(expr)),
            Box::new(term_view(ty)),
        ),
        Term::Let(span, name, def_type, def_expr, body_expr) => TermV::Let(
            *span,
            *name,
            Box::new(term_view(def_type)),
            Box::new(term_view(def_expr)),
            Box::new(term_view(body_expr)),
        ),
        Term::Universe(span) => TermV::Universe(*span),
        Term::FunType(span, name, param_type, body_type) => TermV::FunType(
            *span,
            *name,
            Box::new(term_view(param_type)),
            Box::new(term_view(body_type)),
        ),
        Term::FunLit(span, name, body_expr) => TermV::FunLit(
            *span,
            *name,
            Box::new(term_view(body_expr)),
        ),
        Term::FunApp(span, head_expr, arg_expr) => TermV::FunApp(
            *span,
            Box::new(term_view(head_expr)),
            Box::new(term_view(arg_expr)),
        ),
        Term::RecordType(span, labels, types) => TermV::RecordType(
            *span,
            labels@,
            terms_view(types@),
        ),
        Term::RecordLit(span, labels, exprs) => TermV::RecordLit(
            *span,
            labels@,
            terms_view(exprs@),
        ),
        Term::RecordProj(span, head_expr, label) => TermV::RecordProj(
            *span,
            Box::new(term_view(head_expr)),
            *label,
        ),
        Term::ArrayLit(span, exprs) => TermV::ArrayLit(*span, terms_view(exprs@)),
        Term::FormatRecord(span, labels, formats) => TermV::FormatRecord(
            *span,
            labels@,
            terms_view(formats@),
        ),
        Term::FormatCond(span, name, format, cond) => TermV::FormatCond(
            *span,
            *name,
            Box::new(term_view(format)),
            Box::new(term_view(cond)),
        ),
        Term::FormatOverlap(span, labels, formats) => TermV::FormatOverlap(
            *span,
            labels@,
            terms_view(formats@),
        ),
        Term::Prim(span, prim) => TermV::Prim(*span, *prim),
        Term::ConstLit(span, constant) => TermV::ConstLit(*span, *constant),
        Term::ConstMatch(span, head_expr, branches, default_expr) => TermV::ConstMatch(
            *span,
            Box::new(term_view(head_expr)),
            branches_view(branches@),
            match default_expr {
                Some(expr) => Some(Box::new(term_view(expr))),
                None => None,
            },
        ),
    }
}

/// The models of a sequence of terms.
pub open spec fn terms_view(terms: Seq<Term>) -> Seq<TermV>
    decreases terms,
{
    Seq::new(
        terms.len(),
        |i: int|
            if 0 <= i < terms.len() {
                term_view(&terms[i])
            } else {
                arbitrary()
            },
    )
}

/// The models of the branches of a match.
pub open spec fn branches_view(branches: Seq<(Const, Term)>) -> Seq<(Const, TermV)>
    decreases branches,
{
    Seq::new(
        branches.len(),
        |i: int|
            if 0 <= i < branches.len() {
                (branches[i].0, term_view(&branches[i].1))
            } else {
                arbitrary()
            },
    )
}

impl<'arena> View for Term<'arena> {
    type V = TermV;

    open spec fn view(&self) -> TermV {
        term_view(self)
    }
}

impl TermV {
    pub open spec fn span(self) -> Span {
        match self {
            TermV::ItemVar(span, _) => span,
            TermV::LocalVar(span, _) => span,
            TermV::MetaVar(span, _) => span,
            TermV::InsertedMeta(span, _, _) => span,
            TermV::Ann(span, _, _) => span,
            TermV::Let(span, _, _, _, _) => span,
            TermV::Universe(span) => span,
            TermV::FunType(span, _, _, _) => span,
            TermV::FunLit(span, _, _) => span,
            TermV::FunApp(span, _, _) => span,
            TermV::RecordType(span, _, _) => span,
            TermV::RecordLit(span, _, _) => span,
            TermV::RecordProj(span, _, _) => span,
            TermV::ArrayLit(span, _) => span,
            TermV::FormatRecord(span, _, _) => span,
            TermV::FormatCond(span, _, _, _) => span,
            TermV::FormatOverlap(span, _, _) => span,
            TermV::Prim(span, _) => span,
            TermV::ConstLit(span, _) => span,
            TermV::ConstMatch(span, _, _, _) => span,
        }
    }
}

impl<'arena> Term<'arena> {
    /// The span of the source that the term came from.
    pub fn span(&self) -> (span: Span)
        ensures
            span == self@.span(),
    {
        match self {
            Term::ItemVar(span, _) => *span,
            Term::LocalVar(span, _) => *span,
            Term::MetaVar(span, _) => *span,
            Term::InsertedMeta(span, _, _) => *span,
            Term::Ann(span, _, _) => *span,
            Term::Let(span, _, _, _, _) => *span,
            Term::Universe(span) => *span,
            Term::FunType(span, _, _, _) => *span,
            Term::FunLit(span, _, _) => *span,
            Term::FunApp(span, _, _) => *span,
            Term::RecordType(span, _, _) => *span,
            Term::RecordLit(span, _, _) => *span,
            Term::RecordProj(span, _, _) => *span,
            Term::ArrayLit(span, _) => *span,
            Term::FormatRecord(span, _, _) => *span,
            Term::FormatCond(span, _, _, _) => *span,
            Term::FormatOverlap(span, _, _) => *span,
            Term::Prim(span, _) => *span,
            Term::ConstLit(span, _) => *span,
            Term::ConstMatch(span, _, _, _) => *span,
        }
    }
}

} // verus!
