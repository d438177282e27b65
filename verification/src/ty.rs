//! Type AST nodes and the declarator printer.
//!
//! C declarations follow the "declaration mirrors use" rule: a declarator is
//! built from the name outwards, prefixing `*` for a pointer, appending
//! `[N]` for an array and `(params)` for a function type, and wrapping the
//! accumulated declarator in parentheses whenever a pointer's immediate
//! pointee is an array or function type, since `[]` and `()` bind tighter
//! than `*`.

use crate::ctx::ModuleCtx;
use crate::expr::{value_text, CValue, CValueKind};
use crate::num::{dec_rep, u64_dec};
use vstd::prelude::*;
use vstd::string::*;

verus! {

/// A handle to a type node in a module's arena.
#[derive(Clone, Copy)]
pub struct CTy(pub usize);

/// C type kinds.
pub enum CTyKind {
    /// A named scalar or otherwise atomic type, such as `int`.
    Named(String),
    /// Pointer to a type.
    Pointer(CTy),
    /// Array of a type, with its element count.
    Array(CTy, u64),
    /// Function type: ordered parameter types and a return type.
    Function(Vec<CTy>, CTy),
}

/// A type node refers only to type nodes created before it.
pub open spec fn ty_kind_wf(k: CTyKind, i: int) -> bool {
    match k {
        CTyKind::Named(_) => true,
        CTyKind::Pointer(t) => (t.0 as int) < i,
        CTyKind::Array(t, _) => (t.0 as int) < i,
        CTyKind::Function(ps, r) => (r.0 as int) < i && forall|j: int|
            0 <= j < ps@.len() ==> ((#[trigger] ps@[j]).0 as int) < i,
    }
}

/// Whether the node at `j` is an array or function type: the cases where a
/// pointer wrapping the declarator needs explicit parentheses.
pub open spec fn postfix_kind(tys: Seq<CTyKind>, j: int) -> bool {
    0 <= j < tys.len() && (tys[j] is Array || tys[j] is Function)
}

/// The declarator for the type at index `i` wrapped around the accumulated
/// declarator `acc` (initially the declared name, or empty for an abstract
/// declarator).
pub open spec fn declarator_text(tys: Seq<CTyKind>, i: int, acc: Seq<char>) -> Seq<char>
    decreases i, 1int, 0int,
{
    if 0 <= i < tys.len() {
        match tys[i] {
            CTyKind::Named(nm) => if acc.len() == 0 {
                nm@
            } else {
                nm@ + seq![' '] + acc
            },
            CTyKind::Pointer(t) => if (t.0 as int) < i {
                if postfix_kind(tys, t.0 as int) {
                    declarator_text(tys, t.0 as int, seq!['(', '*'] + acc + seq![')'])
                } else {
                    declarator_text(tys, t.0 as int, seq!['*'] + acc)
                }
            } else {
                Seq::empty()
            },
            CTyKind::Array(t, n) => if (t.0 as int) < i {
                declarator_text(tys, t.0 as int, acc + seq!['['] + dec_rep(n as nat) + seq![']'])
            } else {
                Seq::empty()
            },
            CTyKind::Function(ps, r) => if (r.0 as int) < i {
                declarator_text(
                    tys,
                    r.0 as int,
                    acc + seq!['('] + params_text(tys, ps@, i) + seq![')'],
                )
            } else {
                Seq::empty()
            },
        }
    } else {
        Seq::empty()
    }
}

/// The comma-separated abstract declarators of a function type's parameters,
/// each of which lies below `bound` in the arena.
pub open spec fn params_text(tys: Seq<CTyKind>, ps: Seq<CTy>, bound: int) -> Seq<char>
    decreases bound, 0int, ps.len(),
{
    if ps.len() == 0 {
        Seq::empty()
    } else {
        let first = if 0 <= (ps[0].0 as int) < bound {
            declarator_text(tys, ps[0].0 as int, Seq::empty())
        } else {
            Seq::empty()
        };
        if ps.len() == 1 {
            first
        } else {
            first + seq![',', ' '] + params_text(tys, ps.drop_first(), bound)
        }
    }
}

/// The full declarator for a type and an optional declared name.
pub open spec fn declarator_spec(
    tys: Seq<CTyKind>,
    vals: Seq<CValueKind>,
    ty: CTy,
    name: Option<CValue>,
) -> Seq<char> {
    let base = match name {
        Some(v) => value_text(vals, v.0 as int),
        None => Seq::empty(),
    };
    declarator_text(tys, ty.0 as int, base)
}

impl ModuleCtx {
    /// Create a named scalar type.
    pub fn ty_named(&mut self, name: &str) -> (r: CTy)
        requires
            old(self).wf(),
        ensures
            final(self).wf(),
            r.0 == old(self).tys@.len(),
            final(self).tys@.len() == old(self).tys@.len() + 1,
            final(self).tys@ == old(self).tys@.push(final(self).tys@.last()),
            final(self).tys@.last() matches CTyKind::Named(s) && s@ == name@,
            final(self).vals@ == old(self).vals@,
            final(self).exprs@ == old(self).exprs@,
            final(self).decls@ == old(self).decls@,
    {
        let idx: usize = self.tys.len();
        self.tys.push(CTyKind::Named(name.to_owned()));
        proof {
            lemma_tys_grow(*old(self), *self);
        }
        CTy(idx)
    }

    /// Create a pointer type.
    pub fn ty_pointer(&mut self, to: CTy) -> (r: CTy)
        requires
            old(self).wf(),
            (to.0 as int) < old(self).tys@.len(),
        ensures
            final(self).wf(),
            r.0 == old(self).tys@.len(),
            final(self).tys@ == old(self).tys@.push(CTyKind::Pointer(to)),
            final(self).vals@ == old(self).vals@,
            final(self).exprs@ == old(self).exprs@,
            final(self).decls@ == old(self).decls@,
    {
        let idx: usize = self.tys.len();
        self.tys.push(CTyKind::Pointer(to));
        proof {
            lemma_tys_grow(*old(self), *self);
        }
        CTy(idx)
    }

    /// Create an array type with an element count.
    pub fn ty_array(&mut self, elem: CTy, size: u64) -> (r: CTy)
        requires
            old(self).wf(),
            (elem.0 as int) < old(self).tys@.len(),
        ensures
            final(self).wf(),
            r.0 == old(self).tys@.len(),
            final(self).tys@ == old(self).tys@.push(CTyKind::Array(elem, size)),
            final(self).vals@ == old(self).vals@,
            final(self).exprs@ == old(self).exprs@,
            final(self).decls@ == old(self).decls@,
    {
        let idx: usize = self.tys.len();
        self.tys.push(CTyKind::Array(elem, size));
        proof {
            lemma_tys_grow(*old(self), *self);
        }
        CTy(idx)
    }

    /// Create a function type from parameter types and a return type.
    pub fn ty_function(&mut self, params: Vec<CTy>, ret: CTy) -> (r: CTy)
        requires
            old(self).wf(),
            (ret.0 as int) < old(self).tys@.len(),
            forall|j: int|
                0 <= j < params@.len() ==> ((#[trigger] params@[j]).0 as int) < old(
                    self,
                ).tys@.len(),
        ensures
            final(self).wf(),
            r.0 == old(self).tys@.len(),
            final(self).tys@ == old(self).tys@.push(CTyKind::Function(params, ret)),
            final(self).vals@ == old(self).vals@,
            final(self).exprs@ == old(self).exprs@,
            final(self).decls@ == old(self).decls@,
    {
        let idx: usize = self.tys.len();
        self.tys.push(CTyKind::Function(params, ret));
        proof {
            lemma_tys_grow(*old(self), *self);
        }
        CTy(idx)
    }

    fn postfix_ty(&self, t: CTy) -> (r: bool)
        requires
            (t.0 as int) < self.tys@.len(),
        ensures
            r == postfix_kind(self.tys@, t.0 as int),
    {
        match &self.tys[t.0] {
            CTyKind::Array(_, _) => true,
            CTyKind::Function(_, _) => true,
            _ => false,
        }
    }

    fn declarator_from(&self, ty: CTy, acc: String) -> (r: String)
        requires
            self.tys_wf(),
            (ty.0 as int) < self.tys@.len(),
        ensures
            r@ == declarator_text(self.tys@, ty.0 as int, acc@),
        decreases ty.0,
    {
        let ghost acc0: Seq<char> = acc@;
        match &self.tys[ty.0] {
            CTyKind::Named(nm) => {
                if acc.as_str().unicode_len() == 0 {
                    nm.clone()
                } else {
                    let mut r = nm.clone();
                    r.append(" ");
                    r.append(acc.as_str());
                    proof {
                        reveal_strlit(" ");
                        assert(r@ =~= nm@ + seq![' '] + acc0);
                    }
                    r
                }
            },
            CTyKind::Pointer(t) => {
                proof {
                    assert(ty_kind_wf(self.tys@[ty.0 as int], ty.0 as int));
                }
                let inner: String;
                if self.postfix_ty(*t) {
                    let mut s = String::new();
                    s.append("(*");
                    s.append(acc.as_str());
                    s.append(")");
                    proof {
                        reveal_strlit("(*");
                        reveal_strlit(")");
                        assert(s@ =~= seq!['(', '*'] + acc0 + seq![')']);
                    }
                    inner = s;
                } else {
                    let mut s = String::new();
                    s.append("*");
                    s.append(acc.as_str());
                    proof {
                        reveal_strlit("*");
                        assert(s@ =~= seq!['*'] + acc0);
                    }
                    inner = s;
                }
                self.declarator_from(*t, inner)
            },
            CTyKind::Array(t, n) => {
                proof {
                    assert(ty_kind_wf(self.tys@[ty.0 as int], ty.0 as int));
                }
                let mut s = acc;
                s.append("[");
                let num = u64_dec(*n);
                s.append(num.as_str());
                s.append("]");
                proof {
                    reveal_strlit("[");
                    reveal_strlit("]");
                    assert(s@ =~= acc0 + seq!['['] + dec_rep(*n as nat) + seq![']']);
                }
                self.declarator_from(*t, s)
            },
            CTyKind::Function(ps, ret) => {
                proof {
                    assert(ty_kind_wf(self.tys@[ty.0 as int], ty.0 as int));
                }
                let ghost bound: int = ty.0 as int;
                let mut ptext = String::new();
                let mut j: usize = 0;
                proof {
                    assert(ps@.skip(0) =~= ps@);
                    assert(ty_kind_wf(self.tys@[ty.0 as int], ty.0 as int));
                }
                while j < ps.len()
                    invariant
                        self.tys_wf(),
                        (ty.0 as int) < self.tys@.len(),
                        bound == ty.0 as int,
                        forall|jj: int|
                            0 <= jj < ps@.len() ==> ((#[trigger] ps@[jj]).0 as int) < bound,
                        j <= ps@.len(),
                        params_text(self.tys@, ps@, bound) == ptext@ + params_text(
                            self.tys@,
                            ps@.skip(j as int),
                            bound,
                        ),
                    decreases ps@.len() - j,
                {
                    proof {
                        assert((ps@[j as int].0 as int) < bound);
                    }
                    let pj: CTy = ps[j];
                    let pstr = self.declarator_from(pj, String::new());
                    proof {
                        let rest = ps@.skip(j as int);
                        assert(rest[0] == ps@[j as int]);
                        assert(rest.drop_first() =~= ps@.skip(j as int + 1));
                    }
                    ptext.append(pstr.as_str());
                    if j + 1 < ps.len() {
                        ptext.append(", ");
                        proof {
                            reveal_strlit(", ");
                            assert(", "@ =~= seq![',', ' ']);
                        }
                    }
                    proof {
                        assert(params_text(self.tys@, ps@, bound) =~= ptext@ + params_text(
                            self.tys@,
                            ps@.skip(j as int + 1),
                            bound,
                        ));
                    }
                    j = j + 1;
                }
                proof {
                    assert(ps@.skip(ps@.len() as int) =~= Seq::<CTy>::empty());
                    assert(ptext@ =~= params_text(self.tys@, ps@, bound));
                }
                let mut s = acc;
                s.append("(");
                s.append(ptext.as_str());
                s.append(")");
                proof {
                    reveal_strlit("(");
                    reveal_strlit(")");
                    assert(s@ =~= acc0 + seq!['('] + params_text(self.tys@, ps@, bound) + seq![
                        ')',
                    ]);
                }
                self.declarator_from(*ret, s)
            },
        }
    }
}

/// Print the one correct C declarator for a type and an optional name.
/// With `None` the result is the abstract declarator, as used for function
/// parameters.
pub fn print_declarator(cx: &ModuleCtx, ty: CTy, name: Option<CValue>) -> (r: String)
    requires
        cx.tys_wf(),
        (ty.0 as int) < cx.tys@.len(),
        name matches Some(v) ==> (v.0 as int) < cx.vals@.len(),
    ensures
        r@ == declarator_spec(cx.tys@, cx.vals@, ty, name),
{
    let base = match name {
        Some(v) => cx.value_string(v),
        None => String::new(),
    };
    cx.declarator_from(ty, base)
}

proof fn lemma_tys_grow(before: ModuleCtx, after: ModuleCtx)
    requires
        before.wf(),
        after.tys@.len() == before.tys@.len() + 1,
        after.tys@ == before.tys@.push(after.tys@.last()),
        ty_kind_wf(after.tys@.last(), after.tys@.len() - 1),
        after.vals@ == before.vals@,
        after.exprs@ == before.exprs@,
        after.decls@ == before.decls@,
    ensures
        after.wf(),
{
    assert forall|i: int| 0 <= i < after.tys@.len() implies ty_kind_wf(
        #[trigger] after.tys@[i],
        i,
    ) by {
        if i < before.tys@.len() {
            assert(after.tys@[i] == before.tys@[i]);
            assert(ty_kind_wf(before.tys@[i], i));
        }
    }
    assert forall|i: int| 0 <= i < after.decls@.len() implies crate::decl::decl_kind_wf(
        #[trigger] after.decls@[i],
        after.vals@,
        after.tys@.len() as int,
        after.exprs@.len() as int,
    ) by {
        assert(crate::decl::decl_kind_wf(
            before.decls@[i],
            before.vals@,
            before.tys@.len() as int,
            before.exprs@.len() as int,
        ));
    }
}

} // verus!
