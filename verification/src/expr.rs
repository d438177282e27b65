//! Expression and value AST nodes: literals and named value references,
//! usable as initializers and wherever an identifier is expected.

use crate::ctx::ModuleCtx;
use crate::num::{dec_rep, i64_dec, int_rep, u64_dec};
use vstd::prelude::*;
use vstd::string::*;

verus! {

/// A handle to a value node in a module's arena.
#[derive(Clone, Copy)]
pub struct CValue(pub usize);

/// Value kinds: an integer scalar, a numbered local (`_0`, `_1`, ...), or a
/// named identifier.
pub enum CValueKind {
    /// An integer literal.
    Scalar(i64),
    /// A numbered local, printed with a leading underscore.
    Local(usize),
    /// A plain identifier, printed as is.
    Ident(String),
}

/// A handle to an expression node in a module's arena.
#[derive(Clone, Copy)]
pub struct CExpr(pub usize);

/// Expression kinds: today, a value reference; further forms join this
/// closed set as the translation grows.
pub enum CExprKind {
    /// A value used as an expression.
    Value(CValue),
}

/// Whether a value kind denotes a plain identifier, as a declaration's
/// name must.
pub open spec fn is_ident_value(k: CValueKind) -> bool {
    match k {
        CValueKind::Scalar(_) => false,
        CValueKind::Local(_) => true,
        CValueKind::Ident(_) => true,
    }
}

/// An expression node refers only to existing value nodes.
pub open spec fn expr_kind_wf(k: CExprKind, n_vals: int) -> bool {
    match k {
        CExprKind::Value(v) => (v.0 as int) < n_vals,
    }
}

/// The text of the value node at index `i`.
pub open spec fn value_text(vals: Seq<CValueKind>, i: int) -> Seq<char> {
    if 0 <= i < vals.len() {
        match vals[i] {
            CValueKind::Scalar(n) => int_rep(n as int),
            CValueKind::Local(k) => seq!['_'] + dec_rep(k as nat),
            CValueKind::Ident(s) => s@,
        }
    } else {
        Seq::empty()
    }
}

/// The text of the expression node at index `i`.
pub open spec fn expr_text(vals: Seq<CValueKind>, exprs: Seq<CExprKind>, i: int) -> Seq<char> {
    if 0 <= i < exprs.len() {
        match exprs[i] {
            CExprKind::Value(v) => value_text(vals, v.0 as int),
        }
    } else {
        Seq::empty()
    }
}

impl ModuleCtx {
    /// Create a scalar (integer literal) value.
    pub fn val_scalar(&mut self, n: i64) -> (r: CValue)
        requires
            old(self).wf(),
        ensures
            final(self).wf(),
            r.0 == old(self).vals@.len(),
            final(self).vals@ == old(self).vals@.push(CValueKind::Scalar(n)),
            final(self).tys@ == old(self).tys@,
            final(self).exprs@ == old(self).exprs@,
            final(self).decls@ == old(self).decls@,
    {
        let idx: usize = self.vals.len();
        self.vals.push(CValueKind::Scalar(n));
        proof {
            lemma_vals_grow(*old(self), *self);
        }
        CValue(idx)
    }

    /// Create a numbered local value, printed `_0`, `_1`, ...
    pub fn val_local(&mut self, k: usize) -> (r: CValue)
        requires
            old(self).wf(),
        ensures
            final(self).wf(),
            r.0 == old(self).vals@.len(),
            final(self).vals@ == old(self).vals@.push(CValueKind::Local(k)),
            final(self).tys@ == old(self).tys@,
            final(self).exprs@ == old(self).exprs@,
            final(self).decls@ == old(self).decls@,
    {
        let idx: usize = self.vals.len();
        self.vals.push(CValueKind::Local(k));
        proof {
            lemma_vals_grow(*old(self), *self);
        }
        CValue(idx)
    }

    /// Create a named identifier value.
    pub fn val_ident(&mut self, name: &str) -> (r: CValue)
        requires
            old(self).wf(),
        ensures
            final(self).wf(),
            r.0 == old(self).vals@.len(),
            final(self).vals@.len() == old(self).vals@.len() + 1,
            final(self).vals@ == old(self).vals@.push(final(self).vals@.last()),
            final(self).vals@.last() matches CValueKind::Ident(s) && s@ == name@,
            final(self).tys@ == old(self).tys@,
            final(self).exprs@ == old(self).exprs@,
            final(self).decls@ == old(self).decls@,
    {
        let idx: usize = self.vals.len();
        self.vals.push(CValueKind::Ident(name.to_owned()));
        proof {
            lemma_vals_grow(*old(self), *self);
        }
        CValue(idx)
    }

    /// Create an expression that refers to a value.
    pub fn expr_value(&mut self, v: CValue) -> (r: CExpr)
        requires
            old(self).wf(),
            (v.0 as int) < old(self).vals@.len(),
        ensures
            final(self).wf(),
            r.0 == old(self).exprs@.len(),
            final(self).exprs@ == old(self).exprs@.push(CExprKind::Value(v)),
            final(self).tys@ == old(self).tys@,
            final(self).vals@ == old(self).vals@,
            final(self).decls@ == old(self).decls@,
    {
        let idx: usize = self.exprs.len();
        self.exprs.push(CExprKind::Value(v));
        proof {
            assert forall|i: int| 0 <= i < self.exprs@.len() implies expr_kind_wf(
                #[trigger] self.exprs@[i],
                self.vals@.len() as int,
            ) by {
                if i < old(self).exprs@.len() {
                    assert(self.exprs@[i] == old(self).exprs@[i]);
                }
            }
            assert forall|i: int| 0 <= i < self.decls@.len() implies crate::decl::decl_kind_wf(
                #[trigger] self.decls@[i],
                self.vals@,
                self.tys@.len() as int,
                self.exprs@.len() as int,
            ) by {
                assert(crate::decl::decl_kind_wf(
                    old(self).decls@[i],
                    old(self).vals@,
                    old(self).tys@.len() as int,
                    old(self).exprs@.len() as int,
                ));
            }
        }
        CExpr(idx)
    }

    /// Render the text of a value: its number for a scalar, `_N` for a
    /// local, the identifier itself for a name.
    pub fn value_string(&self, v: CValue) -> (r: String)
        requires
            (v.0 as int) < self.vals@.len(),
        ensures
            r@ == value_text(self.vals@, v.0 as int),
    {
        match &self.vals[v.0] {
            CValueKind::Scalar(n) => i64_dec(*n),
            CValueKind::Local(k) => {
                let mut r = String::new();
                r.append("_");
                proof {
                    reveal_strlit("_");
                    assert(r@ =~= seq!['_']);
                }
                let tail = u64_dec(*k as u64);
                r.append(tail.as_str());
                proof {
                    assert((*k as u64) as nat == *k as nat);
                    assert(r@ =~= seq!['_'] + dec_rep(*k as nat));
                }
                r
            },
            CValueKind::Ident(s) => s.clone(),
        }
    }

    /// Render the text of an expression.
    pub fn expr_string(&self, e: CExpr) -> (r: String)
        requires
            self.wf(),
            (e.0 as int) < self.exprs@.len(),
        ensures
            r@ == expr_text(self.vals@, self.exprs@, e.0 as int),
    {
        match &self.exprs[e.0] {
            CExprKind::Value(v) => self.value_string(*v),
        }
    }
}

proof fn lemma_vals_grow(before: ModuleCtx, after: ModuleCtx)
    requires
        before.wf(),
        after.vals@.len() == before.vals@.len() + 1,
        after.vals@ == before.vals@.push(after.vals@.last()),
        after.tys@ == before.tys@,
        after.exprs@ == before.exprs@,
        after.decls@ == before.decls@,
    ensures
        after.wf(),
{
    assert forall|i: int| 0 <= i < after.exprs@.len() implies expr_kind_wf(
        #[trigger] after.exprs@[i],
        after.vals@.len() as int,
    ) by {
        assert(expr_kind_wf(before.exprs@[i], before.vals@.len() as int));
    }
    assert forall|i: int| 0 <= i < after.decls@.len() implies crate::decl::decl_kind_wf(
        #[trigger] after.decls@[i],
        after.vals@,
        after.tys@.len() as int,
        after.exprs@.len() as int,
    ) by {
        assert(crate::decl::decl_kind_wf(
            before.decls@[i],
            before.vals@,
            before.tys@.len() as int,
            before.exprs@.len() as int,
        ));
        assert(forall|j: int|
            0 <= j < before.vals@.len() ==> after.vals@[j] == #[trigger] before.vals@[j]);
    }
}

} // verus!
