//! The module context: an arena that owns every AST node built for one
//! translation unit.
//!
//! Nodes are stored per kind in growable stores; handles are indices wrapped
//! in small typed newtypes.  A node only ever refers to nodes created before
//! it, so every handle stays valid for the arena's whole lifetime and the
//! node graph is acyclic by construction.

use crate::decl::{decl_kind_wf, CDeclKind};
use crate::expr::{expr_kind_wf, CExprKind, CValueKind};
use crate::ty::{ty_kind_wf, CTyKind};
use vstd::prelude::*;

verus! {

/// Owns the AST nodes of one translation unit.
pub struct ModuleCtx {
    /// Type nodes; a `CTy` handle is an index into this store.
    pub tys: Vec<CTyKind>,
    /// Value nodes; a `CValue` handle is an index into this store.
    pub vals: Vec<CValueKind>,
    /// Expression nodes; a `CExpr` handle is an index into this store.
    pub exprs: Vec<CExprKind>,
    /// Declaration nodes; a `CDecl` handle is an index into this store.
    pub decls: Vec<CDeclKind>,
}

impl ModuleCtx {
    /// Every type node refers only to earlier type nodes.
    pub open spec fn tys_wf(self) -> bool {
        forall|i: int| 0 <= i < self.tys@.len() ==> ty_kind_wf(#[trigger] self.tys@[i], i)
    }

    /// Every expression node refers only to existing value nodes.
    pub open spec fn exprs_wf(self) -> bool {
        forall|i: int|
            0 <= i < self.exprs@.len() ==> expr_kind_wf(
                #[trigger] self.exprs@[i],
                self.vals@.len() as int,
            )
    }

    /// Every declaration node refers only to existing nodes, and its name
    /// denotes a plain identifier.
    pub open spec fn decls_wf(self) -> bool {
        forall|i: int|
            0 <= i < self.decls@.len() ==> decl_kind_wf(
                #[trigger] self.decls@[i],
                self.vals@,
                self.tys@.len() as int,
                self.exprs@.len() as int,
            )
    }

    /// Structural well-formedness of the whole arena.
    pub open spec fn wf(self) -> bool {
        self.tys_wf() && self.exprs_wf() && self.decls_wf()
    }

    /// A fresh, empty context for one translation unit.
    pub fn new() -> (r: ModuleCtx)
        ensures
            r.wf(),
            r.tys@.len() == 0,
            r.vals@.len() == 0,
            r.exprs@.len() == 0,
            r.decls@.len() == 0,
    {
        ModuleCtx { tys: Vec::new(), vals: Vec::new(), exprs: Vec::new(), decls: Vec::new() }
    }
}

} // verus!
