//! Declaration AST nodes and the render entry points.
//!
//! A variable declaration renders as one indentation group: the declarator,
//! then, when an initializer is present, ` =`, a soft break and the
//! initializer, then `;`.  When the whole declaration does not fit on one
//! line the break after `=` is the one that yields, keeping the declarator
//! and `=` together and indenting the initializer one level deeper.

use crate::ctx::ModuleCtx;
use crate::expr::{expr_text, is_ident_value, CExpr, CValue, CValueKind};
use crate::pretty::{
    cap_add, doc_shape, flat_len, has_hard_break, layout, render_doc, rendered, spaces, Doc,
    DocShape, INDENT,
};
use crate::ty::{declarator_spec, print_declarator, CTy};
use vstd::prelude::*;
use vstd::string::*;

verus! {

/// A handle to a declaration node in a module's arena.
#[derive(Clone, Copy)]
pub struct CDecl(pub usize);

/// C declaration kinds.
pub enum CDeclKind {
    /// Variable declaration consisting of a name, type, and optional
    /// initializer: `int foo;` or `int foo = bar;`.
    Var { name: CValue, ty: CTy, init: Option<CExpr> },
}

/// A declaration refers only to existing nodes, and its name denotes a
/// plain identifier.
pub open spec fn decl_kind_wf(
    k: CDeclKind,
    vals: Seq<CValueKind>,
    n_tys: int,
    n_exprs: int,
) -> bool {
    match k {
        CDeclKind::Var { name, ty, init } => {
            &&& (name.0 as int) < vals.len()
            &&& is_ident_value(vals[name.0 as int])
            &&& (ty.0 as int) < n_tys
            &&& (init matches Some(e) ==> (e.0 as int) < n_exprs)
        },
    }
}

impl ModuleCtx {
    /// Create a new declaration.
    pub fn decl(&mut self, decl: CDeclKind) -> (r: CDecl)
        requires
            old(self).wf(),
            decl_kind_wf(
                decl,
                old(self).vals@,
                old(self).tys@.len() as int,
                old(self).exprs@.len() as int,
            ),
        ensures
            final(self).wf(),
            r.0 == old(self).decls@.len(),
            final(self).decls@ == old(self).decls@.push(decl),
            final(self).tys@ == old(self).tys@,
            final(self).vals@ == old(self).vals@,
            final(self).exprs@ == old(self).exprs@,
    {
        let idx: usize = self.decls.len();
        self.decls.push(decl);
        proof {
            assert forall|i: int| 0 <= i < self.decls@.len() implies decl_kind_wf(
                #[trigger] self.decls@[i],
                self.vals@,
                self.tys@.len() as int,
                self.exprs@.len() as int,
            ) by {
                if i < old(self).decls@.len() {
                    assert(self.decls@[i] == old(self).decls@[i]);
                    assert(decl_kind_wf(
                        old(self).decls@[i],
                        old(self).vals@,
                        old(self).tys@.len() as int,
                        old(self).exprs@.len() as int,
                    ));
                }
            }
        }
        CDecl(idx)
    }

    /// Create a new variable declaration.
    pub fn var(&mut self, name: CValue, ty: CTy, init: Option<CExpr>) -> (r: CDecl)
        requires
            old(self).wf(),
            (name.0 as int) < old(self).vals@.len(),
            is_ident_value(old(self).vals@[name.0 as int]),
            (ty.0 as int) < old(self).tys@.len(),
            init matches Some(e) ==> (e.0 as int) < old(self).exprs@.len(),
        ensures
            final(self).wf(),
            r.0 == old(self).decls@.len(),
            final(self).decls@ == old(self).decls@.push(CDeclKind::Var { name, ty, init }),
            final(self).tys@ == old(self).tys@,
            final(self).vals@ == old(self).vals@,
            final(self).exprs@ == old(self).exprs@,
    {
        self.decl(CDeclKind::Var { name, ty, init })
    }
}

/// The declarator text of a declaration: base type and declared name.
pub open spec fn var_head_text(cx: ModuleCtx, d: CDecl) -> Seq<char> {
    if 0 <= d.0 < cx.decls@.len() {
        match cx.decls@[d.0 as int] {
            CDeclKind::Var { name, ty, init } => declarator_spec(
                cx.tys@,
                cx.vals@,
                ty,
                Some(name),
            ),
        }
    } else {
        Seq::empty()
    }
}

/// The text of a declaration's initializer, empty when there is none.
pub open spec fn var_init_text(cx: ModuleCtx, d: CDecl) -> Seq<char> {
    if 0 <= d.0 < cx.decls@.len() {
        match cx.decls@[d.0 as int] {
            CDeclKind::Var { name, ty, init } => match init {
                Some(e) => expr_text(cx.vals@, cx.exprs@, e.0 as int),
                None => Seq::empty(),
            },
        }
    } else {
        Seq::empty()
    }
}

/// Whether a declaration carries an initializer.
pub open spec fn var_has_init(cx: ModuleCtx, d: CDecl) -> bool {
    0 <= d.0 < cx.decls@.len() && match cx.decls@[d.0 as int] {
        CDeclKind::Var { name, ty, init } => init is Some,
    }
}

/// The layout document of a declaration: one indentation group holding the
/// declarator, the optional ` =`, soft break and initializer, and `;`.
pub open spec fn decl_doc(cx: ModuleCtx, d: CDecl) -> DocShape {
    let head = DocShape::Text(var_head_text(cx, d));
    let body = if var_has_init(cx, d) {
        DocShape::Pair(
            Box::new(head),
            Box::new(
                DocShape::Pair(
                    Box::new(DocShape::Text(seq![' ', '='])),
                    Box::new(
                        DocShape::Pair(
                            Box::new(DocShape::SoftBreak),
                            Box::new(DocShape::Text(var_init_text(cx, d))),
                        ),
                    ),
                ),
            ),
        )
    } else {
        head
    };
    DocShape::Group(
        INDENT as nat,
        Box::new(DocShape::Pair(Box::new(body), Box::new(DocShape::Text(seq![';'])))),
    )
}

/// The rendered text of a declaration at a given maximum line width.
pub open spec fn decl_text(cx: ModuleCtx, d: CDecl, width: nat) -> Seq<char> {
    rendered(decl_doc(cx, d), width)
}

impl ModuleCtx {
    /// Build the layout document of a declaration.
    pub fn decl_to_doc(&self, d: CDecl) -> (doc: Doc)
        requires
            self.wf(),
            (d.0 as int) < self.decls@.len(),
        ensures
            doc_shape(doc) == decl_doc(*self, d),
    {
        match &self.decls[d.0] {
            CDeclKind::Var { name, ty, init } => {
                proof {
                    assert(decl_kind_wf(
                        self.decls@[d.0 as int],
                        self.vals@,
                        self.tys@.len() as int,
                        self.exprs@.len() as int,
                    ));
                }
                let head_s = print_declarator(self, *ty, Some(*name));
                let head = Doc::Text(head_s);
                let body: Doc = match init {
                    Some(e) => {
                        let init_s = self.expr_string(*e);
                        let mut eq = String::new();
                        eq.append(" =");
                        proof {
                            reveal_strlit(" =");
                            assert(eq@ =~= seq![' ', '=']);
                        }
                        Doc::Pair(
                            Box::new(head),
                            Box::new(
                                Doc::Pair(
                                    Box::new(Doc::Text(eq)),
                                    Box::new(
                                        Doc::Pair(
                                            Box::new(Doc::SoftBreak),
                                            Box::new(Doc::Text(init_s)),
                                        ),
                                    ),
                                ),
                            ),
                        )
                    },
                    None => head,
                };
                let mut semi = String::new();
                semi.append(";");
                proof {
                    reveal_strlit(";");
                    assert(semi@ =~= seq![';']);
                }
                let doc = Doc::Group(
                    INDENT,
                    Box::new(Doc::Pair(Box::new(body), Box::new(Doc::Text(semi)))),
                );
                proof {
                    reveal_with_fuel(doc_shape, 10);
                    assert(doc_shape(doc) =~~= decl_doc(*self, d));
                }
                doc
            },
        }
    }

    /// Render one declaration against a configured maximum line width.
    /// Rendering never fails, and the text depends only on the arena, the
    /// handle and the width.
    pub fn render_decl(&self, d: CDecl, width: usize) -> (r: String)
        requires
            self.wf(),
            (d.0 as int) < self.decls@.len(),
        ensures
            r@ == decl_text(*self, d, width as nat),
    {
        let doc = self.decl_to_doc(d);
        render_doc(&doc, width)
    }
}

/// The text of a whole unit: each declaration's text, a newline after each.
pub open spec fn unit_text(cx: ModuleCtx, ds: Seq<CDecl>, width: nat) -> Seq<char>
    decreases ds.len(),
{
    if ds.len() == 0 {
        Seq::empty()
    } else {
        unit_text(cx, ds.drop_last(), width) + decl_text(cx, ds.last(), width) + seq!['\n']
    }
}

impl ModuleCtx {
    /// Render a sequence of declarations forming a translation unit, one
    /// declaration per line group, each followed by a newline.
    pub fn render_unit(&self, ds: &Vec<CDecl>, width: usize) -> (r: String)
        requires
            self.wf(),
            forall|i: int| 0 <= i < ds@.len() ==> ((#[trigger] ds@[i]).0 as int) < self.decls@.len(),
        ensures
            r@ == unit_text(*self, ds@, width as nat),
    {
        let mut out = String::new();
        let mut j: usize = 0;
        proof {
            assert(ds@.take(0) =~= Seq::<CDecl>::empty());
        }
        while j < ds.len()
            invariant
                self.wf(),
                forall|i: int|
                    0 <= i < ds@.len() ==> ((#[trigger] ds@[i]).0 as int) < self.decls@.len(),
                j <= ds@.len(),
                out@ == unit_text(*self, ds@.take(j as int), width as nat),
            decreases ds@.len() - j,
        {
            let piece = self.render_decl(ds[j], width);
            out.append(piece.as_str());
            out.append("\n");
            proof {
                reveal_strlit("\n");
                let pre = ds@.take(j as int + 1);
                assert(pre.drop_last() =~= ds@.take(j as int));
                assert(pre.last() == ds@[j as int]);
                assert(out@ =~= unit_text(*self, pre, width as nat));
            }
            j = j + 1;
        }
        proof {
            assert(ds@.take(ds@.len() as int) =~= ds@);
        }
        out
    }
}

/// Law: rendering is deterministic.  Two renderings of the same declaration
/// handle against the same arena and the same configured width are equal
/// character for character.
pub proof fn lemma_render_deterministic(
    cx: ModuleCtx,
    d: CDecl,
    width: nat,
    t1: Seq<char>,
    t2: Seq<char>,
)
    requires
        t1 == decl_text(cx, d, width),
        t2 == decl_text(cx, d, width),
    ensures
        t1 == t2,
{
}

/// Law: layout of a variable declaration without an initializer.  Whatever
/// the configured width, the text is the declarator followed by `;`.
pub proof fn lemma_var_no_init_layout(cx: ModuleCtx, d: CDecl, width: nat)
    requires
        0 <= d.0 < cx.decls@.len(),
        !var_has_init(cx, d),
    ensures
        decl_text(cx, d, width) == var_head_text(cx, d) + seq![';'],
{
    reveal_with_fuel(crate::pretty::layout, 8);
    assert(decl_text(cx, d, width) =~= var_head_text(cx, d) + seq![';']);
}

/// Law: layout of a variable declaration with an initializer.  When the
/// declaration fits the configured width it renders on one line as
/// `<declarator> = <init>;`; otherwise the soft break after `=` yields and
/// the initializer continues on the next line, indented one level.
#[verifier::rlimit(80)]
pub proof fn lemma_var_with_init_layout(cx: ModuleCtx, d: CDecl, width: nat)
    requires
        0 <= d.0 < cx.decls@.len(),
        var_has_init(cx, d),
        var_head_text(cx, d).len() + var_init_text(cx, d).len() + 4 <= usize::MAX,
    ensures
        decl_text(cx, d, width) == if var_head_text(cx, d).len() + var_init_text(cx, d).len() + 4
            <= width {
            var_head_text(cx, d) + seq![' ', '=', ' '] + var_init_text(cx, d) + seq![';']
        } else {
            var_head_text(cx, d) + seq![' ', '='] + seq!['\n'] + spaces(INDENT as nat)
                + var_init_text(cx, d) + seq![';']
        },
{
    let h = var_head_text(cx, d);
    let it = var_init_text(cx, d);
    let head = DocShape::Text(h);
    let eqt = DocShape::Text(seq![' ', '=']);
    let tail = DocShape::Pair(Box::new(DocShape::SoftBreak), Box::new(DocShape::Text(it)));
    let mid = DocShape::Pair(Box::new(eqt), Box::new(tail));
    let body = DocShape::Pair(Box::new(head), Box::new(mid));
    let semi = DocShape::Text(seq![';']);
    let inner = DocShape::Pair(Box::new(body), Box::new(semi));
    assert(decl_doc(cx, d) == DocShape::Group(INDENT as nat, Box::new(inner)));
    assert(seq![' ', '='].len() == 2);
    assert(seq![';'].len() == 1);
    assert(flat_len(head) == h.len());
    assert(flat_len(eqt) == 2);
    assert(flat_len(semi) == 1);
    assert(flat_len(DocShape::SoftBreak) == 1);
    assert(flat_len(DocShape::Text(it)) == it.len());
    assert(flat_len(tail) == 1 + it.len());
    assert(flat_len(mid) == 3 + it.len());
    assert(flat_len(body) == h.len() + 3 + it.len());
    assert(flat_len(inner) == h.len() + it.len() + 4);
    assert(!has_hard_break(head));
    assert(!has_hard_break(eqt));
    assert(!has_hard_break(semi));
    assert(!has_hard_break(DocShape::SoftBreak));
    assert(!has_hard_break(DocShape::Text(it)));
    assert(!has_hard_break(tail));
    assert(!has_hard_break(mid));
    assert(!has_hard_break(body));
    assert(!has_hard_break(inner));
    let f = h.len() + it.len() + 4 <= width;
    assert(cap_add(0, INDENT as nat) == INDENT as nat);
    assert(cap_add(0, flat_len(inner)) == flat_len(inner));
    assert(decl_text(cx, d, width) == layout(inner, width, INDENT as nat, 0, f).0);
    let r1 = layout(head, width, INDENT as nat, 0, f);
    assert(r1.0 == h && r1.1 == h.len());
    let r2 = layout(eqt, width, INDENT as nat, h.len(), f);
    assert(r2.0 == seq![' ', '='] && r2.1 == h.len() + 2);
    let r3 = layout(DocShape::SoftBreak, width, INDENT as nat, h.len() + 2, f);
    let r4 = layout(DocShape::Text(it), width, INDENT as nat, r3.1, f);
    assert(r4.0 == it);
    let rtail = layout(tail, width, INDENT as nat, h.len() + 2, f);
    assert(rtail.0 == r3.0 + it);
    let rmid = layout(mid, width, INDENT as nat, h.len(), f);
    assert(rmid.0 == seq![' ', '='] + (r3.0 + it));
    let rbody = layout(body, width, INDENT as nat, 0, f);
    assert(rbody.0 == h + (seq![' ', '='] + (r3.0 + it)));
    let rsemi = layout(semi, width, INDENT as nat, rbody.1, f);
    assert(rsemi.0 == seq![';']);
    let rinner = layout(inner, width, INDENT as nat, 0, f);
    assert(rinner.0 == rbody.0 + seq![';']);
    if f {
        assert(r3.0 == seq![' '] && r3.1 == h.len() + 3);
        assert(decl_text(cx, d, width) =~= h + seq![' ', '=', ' '] + it + seq![';']);
    } else {
        assert(r3.0 == seq!['\n'] + spaces(INDENT as nat) && r3.1 == INDENT as nat);
        assert(decl_text(cx, d, width) =~= h + seq![' ', '='] + seq!['\n'] + spaces(
            INDENT as nat,
        ) + it + seq![';']);
    }
}

} // verus!
