//! Tests for the AST, the declarator printer and the document engine.

use c_ast::ctx::ModuleCtx;
use c_ast::num::{i64_dec, u64_dec};
use c_ast::ty::print_declarator;

#[test]
fn decimal_rendering() {
    assert_eq!(u64_dec(0), "0");
    assert_eq!(u64_dec(7), "7");
    assert_eq!(u64_dec(10), "10");
    assert_eq!(u64_dec(12345), "12345");
    assert_eq!(u64_dec(u64::MAX), "18446744073709551615");
    assert_eq!(i64_dec(42), "42");
    assert_eq!(i64_dec(-7), "-7");
    assert_eq!(i64_dec(i64::MIN), "-9223372036854775808");
}

#[test]
fn precedence_pointer_to_array() {
    let mut cx = ModuleCtx::new();
    let int_t = cx.ty_named("int");
    let arr = cx.ty_array(int_t, 4);
    let ptr = cx.ty_pointer(arr);
    let p = cx.val_ident("p");
    let s = print_declarator(&cx, ptr, Some(p));
    assert_eq!(s, "int (*p)[4]");
}

#[test]
fn precedence_pointer_to_function() {
    let mut cx = ModuleCtx::new();
    let int_t = cx.ty_named("int");
    let f_ty = cx.ty_function(vec![int_t], int_t);
    let ptr = cx.ty_pointer(f_ty);
    let f = cx.val_ident("f");
    let s = print_declarator(&cx, ptr, Some(f));
    assert_eq!(s, "int (*f)(int)");
}

#[test]
fn precedence_array_of_pointer() {
    let mut cx = ModuleCtx::new();
    let int_t = cx.ty_named("int");
    let ptr = cx.ty_pointer(int_t);
    let arr = cx.ty_array(ptr, 3);
    let a = cx.val_ident("a");
    let s = print_declarator(&cx, arr, Some(a));
    assert_eq!(s, "int *a[3]");
}

#[test]
fn pointer_to_pointer_needs_no_parens() {
    let mut cx = ModuleCtx::new();
    let int_t = cx.ty_named("int");
    let p1 = cx.ty_pointer(int_t);
    let p2 = cx.ty_pointer(p1);
    let q = cx.val_ident("q");
    let s = print_declarator(&cx, p2, Some(q));
    assert_eq!(s, "int **q");
}

#[test]
fn abstract_declarator_for_parameters() {
    let mut cx = ModuleCtx::new();
    let int_t = cx.ty_named("int");
    let chr = cx.ty_named("char");
    let cp = cx.ty_pointer(chr);
    let f_ty = cx.ty_function(vec![int_t, cp], int_t);
    let g = cx.val_ident("g");
    let s = print_declarator(&cx, f_ty, Some(g));
    assert_eq!(s, "int g(int, char *)");
}

#[test]
fn declarator_without_name() {
    let mut cx = ModuleCtx::new();
    let int_t = cx.ty_named("int");
    let arr = cx.ty_array(int_t, 4);
    let ptr = cx.ty_pointer(arr);
    let s = print_declarator(&cx, ptr, None);
    assert_eq!(s, "int (*)[4]");
}

#[test]
fn deeply_nested_declarator() {
    // f is a pointer to a function taking int and returning a pointer to an
    // array of five pointers to int.
    let mut cx = ModuleCtx::new();
    let int_t = cx.ty_named("int");
    let q = cx.ty_pointer(int_t);
    let a = cx.ty_array(q, 5);
    let r = cx.ty_pointer(a);
    let f_ty = cx.ty_function(vec![int_t], r);
    let p = cx.ty_pointer(f_ty);
    let f = cx.val_ident("f");
    let s = print_declarator(&cx, p, Some(f));
    assert_eq!(s, "int *(*(*f)(int))[5]");
}

#[test]
fn negative_initializer() {
    let mut cx = ModuleCtx::new();
    let int_t = cx.ty_named("int");
    let t = cx.val_ident("t");
    let minus_seven = cx.val_scalar(-7);
    let init = cx.expr_value(minus_seven);
    let d = cx.var(t, int_t, Some(init));
    assert_eq!(cx.render_decl(d, 80), "int t = -7;");
}

#[test]
fn initializer_formatting() {
    let mut cx = ModuleCtx::new();
    let int_t = cx.ty_named("int");
    let x = cx.val_ident("x");
    let forty_two = cx.val_scalar(42);
    let init = cx.expr_value(forty_two);
    let d = cx.var(x, int_t, Some(init));
    assert_eq!(cx.render_decl(d, 80), "int x = 42;");
}

#[test]
fn declaration_without_initializer() {
    let mut cx = ModuleCtx::new();
    let int_t = cx.ty_named("int");
    let x = cx.val_ident("x");
    let d = cx.var(x, int_t, None);
    assert_eq!(cx.render_decl(d, 80), "int x;");
}

#[test]
fn width_sensitivity() {
    let mut cx = ModuleCtx::new();
    let int_t = cx.ty_named("int");
    let x = cx.val_ident("x");
    let forty_two = cx.val_scalar(42);
    let init = cx.expr_value(forty_two);
    let d = cx.var(x, int_t, Some(init));
    // `int x = 42;` is 11 characters wide: it fits exactly at width 11 and
    // breaks after `=` at width 10, indenting the initializer one level.
    assert_eq!(cx.render_decl(d, 11), "int x = 42;");
    assert_eq!(cx.render_decl(d, 10), "int x =\n    42;");
}

#[test]
fn rendering_is_deterministic() {
    let mut cx = ModuleCtx::new();
    let int_t = cx.ty_named("long");
    let arr = cx.ty_array(int_t, 16);
    let ptr = cx.ty_pointer(arr);
    let v = cx.val_ident("buffer");
    let n = cx.val_scalar(-3);
    let init = cx.expr_value(n);
    let d = cx.var(v, ptr, Some(init));
    let first = cx.render_decl(d, 24);
    let second = cx.render_decl(d, 24);
    assert_eq!(first, second);
    assert_eq!(first, cx.render_decl(d, 24));
}

#[test]
fn local_values_are_numbered() {
    let mut cx = ModuleCtx::new();
    let int_t = cx.ty_named("int");
    let l0 = cx.val_local(0);
    let l9 = cx.val_scalar(9);
    let init = cx.expr_value(l9);
    let d = cx.var(l0, int_t, Some(init));
    assert_eq!(cx.render_decl(d, 80), "int _0 = 9;");
}

#[test]
fn render_unit_joins_declarations() {
    let mut cx = ModuleCtx::new();
    let int_t = cx.ty_named("int");
    let x = cx.val_ident("x");
    let y = cx.val_ident("y");
    let one = cx.val_scalar(1);
    let init = cx.expr_value(one);
    let d1 = cx.var(x, int_t, None);
    let d2 = cx.var(y, int_t, Some(init));
    let text = cx.render_unit(&vec![d1, d2], 80);
    assert_eq!(text, "int x;\nint y = 1;\n");
}
