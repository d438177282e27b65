//! Tests for the test-harness decision logic.

use c_ast::harness::{
    bless_check, bless_update, filecheck_candidates, first_hit, glob_pattern, is_generated_name,
    run_plan, TestCase, TestType,
};

#[test]
fn run_plan_dispatch() {
    let compile = run_plan(&TestType::Compile);
    assert!(!compile.build_lib && !compile.filecheck && !compile.bless);
    let lib = run_plan(&TestType::CompileLib);
    assert!(lib.build_lib && !lib.filecheck && !lib.bless);
    let fc = run_plan(&TestType::FileCheck);
    assert!(!fc.build_lib && fc.filecheck && !fc.bless);
    let bl = run_plan(&TestType::Bless);
    assert!(!bl.build_lib && !bl.filecheck && bl.bless);
}

#[test]
fn glob_patterns_per_category() {
    assert_eq!(glob_pattern(&TestType::CompileLib), "tests/auxiliary/*.rs");
    assert_eq!(glob_pattern(&TestType::Compile), "examples/*.rs");
    assert_eq!(glob_pattern(&TestType::FileCheck), "tests/codegen/*.rs");
    assert_eq!(glob_pattern(&TestType::Bless), "tests/bless/*.rs");
}

#[test]
fn assemble_testcase_fields() {
    let case = TestCase::assemble(
        TestType::FileCheck,
        "tests/codegen/loops.rs",
        "loops",
        "build",
    );
    assert_eq!(case.name, "codegen/loops");
    assert_eq!(case.source, "tests/codegen/loops.rs");
    assert_eq!(case.output_file, "build/tests/codegen/loops");
    assert_eq!(case.test, TestType::FileCheck);

    let aux = TestCase::assemble(TestType::CompileLib, "tests/auxiliary/mini.rs", "mini", "out");
    assert_eq!(aux.name, "auxiliary/mini");
    assert_eq!(aux.output_file, "out/mini");

    let ex = TestCase::assemble(TestType::Compile, "examples/hello.rs", "hello", "out");
    assert_eq!(ex.name, "examples/hello");
    assert_eq!(ex.output_file, "out/examples/hello");

    let bl = TestCase::assemble(TestType::Bless, "tests/bless/basic.rs", "basic", "out");
    assert_eq!(bl.name, "bless/basic");
    assert_eq!(bl.output_file, "out/tests/bless/basic");
}

#[test]
fn build_arguments() {
    let case = TestCase::assemble(TestType::Compile, "examples/hello.rs", "hello", "out");
    let args = case.build_args();
    assert_eq!(
        args,
        vec!["--crate-type", "bin", "-O", "examples/hello.rs", "-o", "out/examples/hello"]
    );
    let lib_args = case.build_lib_args("out/examples");
    assert_eq!(
        lib_args,
        vec!["--crate-type", "lib", "-O", "examples/hello.rs", "--out-dir", "out/examples"]
    );
}

#[test]
fn generated_file_recognition() {
    assert!(is_generated_name("loops.loops.abc123.c", "loops"));
    assert!(is_generated_name("loops.c", "loops"));
    assert!(!is_generated_name("loops.o", "loops"));
    assert!(!is_generated_name("other.c", "loops"));
    assert!(!is_generated_name("c", "loops"));
}

#[test]
fn filecheck_lookup_order() {
    let names = filecheck_candidates();
    assert_eq!(
        names,
        vec![
            "FileCheck-18",
            "FileCheck-17",
            "FileCheck-16",
            "FileCheck-15",
            "FileCheck-14",
            "FileCheck"
        ]
    );
    assert_eq!(first_hit(&vec![false, true, true, false, false, false]), Some(1));
    assert_eq!(first_hit(&vec![true, false, false, false, false, false]), Some(0));
    assert_eq!(first_hit(&vec![false, false, false, false, false, true]), Some(5));
    assert_eq!(first_hit(&vec![false, false, false, false, false, false]), None);
    assert_eq!(first_hit(&vec![]), None);
}

#[test]
fn bless_comparison_is_idempotent() {
    let output: Vec<u8> = b"int x = 42;\n".to_vec();
    let blessed: Vec<u8> = b"int x = 41;\n".to_vec();
    // Same verdict on every run without regenerating the reference.
    assert_eq!(bless_check(&output, &blessed), bless_check(&output, &blessed));
    assert!(!bless_check(&output, &blessed));
    assert!(bless_check(&output, &output));
    // Updating the reference and then comparing always passes.
    let updated = bless_update(&output);
    assert!(bless_check(&output, &updated));
    assert_eq!(bless_check(&output, &updated), bless_check(&output, &updated));
}
