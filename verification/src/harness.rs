//! Decision logic of the test harness that drives the code generator:
//! which categories of test cases exist, how a discovered source file maps
//! to a test case, which compiler arguments each case gets, how a generated
//! C file is recognised, and the verdict of the blessed-output comparison.
//!
//! Everything here is pure computation; directory walking, process spawning
//! and file reading live outside the library and hand in plain values.

use vstd::prelude::*;
use vstd::string::*;

verus! {

/// The test command's options.
pub struct TestCommand {
    /// Update the blessed output instead of comparing against it.
    pub bless: bool,
}

/// The kinds of test cases the harness runs.
#[derive(Clone, Copy, Debug, PartialEq, Eq, Structural)]
pub enum TestType {
    /// Test that an executable can be compiled.
    Compile,
    /// Test that a library can be compiled.
    CompileLib,
    /// Run a structural-pattern check over the generated code.
    FileCheck,
    /// Compare the output byte for byte with the blessed output.
    Bless,
}

/// One discovered test case.
pub struct TestCase {
    /// The case's display name, category prefix included.
    pub name: String,
    /// The source file the case was discovered from.
    pub source: String,
    /// Where the built artifact goes.
    pub output_file: String,
    /// The kind of test to run.
    pub test: TestType,
}

/// What the run loop does for one test case after building it.
pub struct RunPlan {
    /// Build as a library rather than an executable.
    pub build_lib: bool,
    /// Run the structural-pattern check on the generated code.
    pub filecheck: bool,
    /// Run the blessed-output comparison.
    pub bless: bool,
}

/// Decide the steps for one test case kind.
pub fn run_plan(t: &TestType) -> (p: RunPlan)
    ensures
        p.build_lib == (*t is CompileLib),
        p.filecheck == (*t is FileCheck),
        p.bless == (*t is Bless),
{
    match t {
        TestType::Compile => RunPlan { build_lib: false, filecheck: false, bless: false },
        TestType::CompileLib => RunPlan { build_lib: true, filecheck: false, bless: false },
        TestType::FileCheck => RunPlan { build_lib: false, filecheck: true, bless: false },
        TestType::Bless => RunPlan { build_lib: false, filecheck: false, bless: true },
    }
}

/// The glob pattern whose matches make up one category of test cases.
pub open spec fn pattern_spec(t: TestType) -> Seq<char> {
    match t {
        TestType::CompileLib => "tests/auxiliary/*.rs"@,
        TestType::Compile => "examples/*.rs"@,
        TestType::FileCheck => "tests/codegen/*.rs"@,
        TestType::Bless => "tests/bless/*.rs"@,
    }
}

/// The glob pattern for one category of test cases.
pub fn glob_pattern(t: &TestType) -> (r: String)
    ensures
        r@ == pattern_spec(*t),
{
    match t {
        TestType::CompileLib => "tests/auxiliary/*.rs".to_owned(),
        TestType::Compile => "examples/*.rs".to_owned(),
        TestType::FileCheck => "tests/codegen/*.rs".to_owned(),
        TestType::Bless => "tests/bless/*.rs".to_owned(),
    }
}

/// The category prefix a case's name carries.
pub open spec fn name_prefix_spec(t: TestType) -> Seq<char> {
    match t {
        TestType::CompileLib => "auxiliary/"@,
        TestType::Compile => "examples/"@,
        TestType::FileCheck => "codegen/"@,
        TestType::Bless => "bless/"@,
    }
}

/// The subdirectory of the output directory a case's artifact goes to.
pub open spec fn output_subdir_spec(t: TestType) -> Seq<char> {
    match t {
        TestType::CompileLib => ""@,
        TestType::Compile => "examples/"@,
        TestType::FileCheck => "tests/codegen/"@,
        TestType::Bless => "tests/bless/"@,
    }
}

impl TestCase {
    /// Assemble one test case from its category, the discovered source
    /// path, the source's file stem, and the configured output directory.
    pub fn assemble(t: TestType, source: &str, stem: &str, out_dir: &str) -> (r: TestCase)
        ensures
            r.name@ == name_prefix_spec(t) + stem@,
            r.source@ == source@,
            r.output_file@ == out_dir@ + seq!['/'] + output_subdir_spec(t) + stem@,
            r.test == t,
    {
        let mut name: String = match &t {
            TestType::CompileLib => "auxiliary/".to_owned(),
            TestType::Compile => "examples/".to_owned(),
            TestType::FileCheck => "codegen/".to_owned(),
            TestType::Bless => "bless/".to_owned(),
        };
        name.append(stem);
        let mut output_file: String = out_dir.to_owned();
        output_file.append("/");
        proof {
            reveal_strlit("/");
            assert(output_file@ =~= out_dir@ + seq!['/']);
        }
        match &t {
            TestType::CompileLib => {
                proof {
                    reveal_strlit("");
                    assert(output_file@ + ""@ =~= output_file@);
                }
            },
            TestType::Compile => {
                output_file.append("examples/");
            },
            TestType::FileCheck => {
                output_file.append("tests/codegen/");
            },
            TestType::Bless => {
                output_file.append("tests/bless/");
            },
        }
        output_file.append(stem);
        TestCase { name, source: source.to_owned(), output_file, test: t }
    }

    /// The compiler arguments that build this case as an executable.
    pub fn build_args(&self) -> (r: Vec<String>)
        ensures
            r@.len() == 6,
            r@[0]@ == "--crate-type"@,
            r@[1]@ == "bin"@,
            r@[2]@ == "-O"@,
            r@[3]@ == self.source@,
            r@[4]@ == "-o"@,
            r@[5]@ == self.output_file@,
    {
        let mut r: Vec<String> = Vec::new();
        r.push("--crate-type".to_owned());
        r.push("bin".to_owned());
        r.push("-O".to_owned());
        r.push(self.source.clone());
        r.push("-o".to_owned());
        r.push(self.output_file.clone());
        r
    }

    /// The compiler arguments that build this case as a library into the
    /// given output directory, keeping the default artifact naming.
    pub fn build_lib_args(&self, output_dir: &str) -> (r: Vec<String>)
        ensures
            r@.len() == 6,
            r@[0]@ == "--crate-type"@,
            r@[1]@ == "lib"@,
            r@[2]@ == "-O"@,
            r@[3]@ == self.source@,
            r@[4]@ == "--out-dir"@,
            r@[5]@ == output_dir@,
    {
        let mut r: Vec<String> = Vec::new();
        r.push("--crate-type".to_owned());
        r.push("lib".to_owned());
        r.push("-O".to_owned());
        r.push(self.source.clone());
        r.push("--out-dir".to_owned());
        r.push(output_dir.to_owned());
        r
    }
}

/// `p` is a prefix of `s`.
pub open spec fn has_prefix(s: Seq<char>, p: Seq<char>) -> bool {
    p.len() <= s.len() && s.subrange(0, p.len() as int) == p
}

/// `p` is a suffix of `s`.
pub open spec fn has_suffix(s: Seq<char>, p: Seq<char>) -> bool {
    p.len() <= s.len() && s.subrange(s.len() - p.len(), s.len() as int) == p
}

fn str_has_prefix(s: &str, p: &str) -> (r: bool)
    ensures
        r == has_prefix(s@, p@),
{
    let sl: usize = s.unicode_len();
    let pl: usize = p.unicode_len();
    if pl > sl {
        return false;
    }
    let mut k: usize = 0;
    while k < pl
        invariant
            k <= pl,
            pl <= sl,
            pl == p@.len(),
            sl == s@.len(),
            forall|t: int| 0 <= t < k ==> s@[t] == p@[t],
        decreases pl - k,
    {
        if s.get_char(k) != p.get_char(k) {
            proof {
                if has_prefix(s@, p@) {
                    assert(s@.subrange(0, p@.len() as int)[k as int] == s@[k as int]);
                }
            }
            return false;
        }
        k = k + 1;
    }
    proof {
        assert(s@.subrange(0, p@.len() as int) =~= p@);
    }
    true
}

fn str_has_suffix(s: &str, p: &str) -> (r: bool)
    ensures
        r == has_suffix(s@, p@),
{
    let sl: usize = s.unicode_len();
    let pl: usize = p.unicode_len();
    if pl > sl {
        return false;
    }
    let off: usize = sl - pl;
    let mut k: usize = 0;
    while k < pl
        invariant
            k <= pl,
            pl <= sl,
            pl == p@.len(),
            sl == s@.len(),
            off == sl - pl,
            forall|t: int| 0 <= t < k ==> s@[off + t] == p@[t],
        decreases pl - k,
    {
        if s.get_char(off + k) != p.get_char(k) {
            proof {
                if has_suffix(s@, p@) {
                    assert(s@.subrange(s@.len() - p@.len(), s@.len() as int)[k as int] == s@[off
                        + k]);
                }
            }
            return false;
        }
        k = k + 1;
    }
    proof {
        assert(s@.subrange(s@.len() - p@.len(), s@.len() as int) =~= p@);
    }
    true
}

/// Whether a file name is the generated C file of the case with the given
/// source file stem: it starts with the stem and ends in `.c`.
pub open spec fn is_generated_name_spec(filename: Seq<char>, stem: Seq<char>) -> bool {
    has_suffix(filename, seq!['.', 'c']) && has_prefix(filename, stem)
}

/// Recognise the generated C file of a case among directory entries.
pub fn is_generated_name(filename: &str, stem: &str) -> (r: bool)
    ensures
        r == is_generated_name_spec(filename@, stem@),
{
    proof {
        reveal_strlit(".c");
        assert(".c"@ =~= seq!['.', 'c']);
    }
    let suffix_ok = str_has_suffix(filename, ".c");
    let prefix_ok = str_has_prefix(filename, stem);
    suffix_ok && prefix_ok
}

/// The candidate names of the structural-pattern-check tool, newest first.
pub fn filecheck_candidates() -> (r: Vec<String>)
    ensures
        r@.len() == 6,
        r@[0]@ == "FileCheck-18"@,
        r@[1]@ == "FileCheck-17"@,
        r@[2]@ == "FileCheck-16"@,
        r@[3]@ == "FileCheck-15"@,
        r@[4]@ == "FileCheck-14"@,
        r@[5]@ == "FileCheck"@,
{
    let mut r: Vec<String> = Vec::new();
    r.push("FileCheck-18".to_owned());
    r.push("FileCheck-17".to_owned());
    r.push("FileCheck-16".to_owned());
    r.push("FileCheck-15".to_owned());
    r.push("FileCheck-14".to_owned());
    r.push("FileCheck".to_owned());
    r
}

/// Pick the first candidate that was found, given one lookup result per
/// candidate.
pub fn first_hit(found: &Vec<bool>) -> (r: Option<usize>)
    ensures
        match r {
            Some(i) => i < found@.len() && found@[i as int] && forall|k: int|
                0 <= k < i ==> !found@[k],
            None => forall|k: int| 0 <= k < found@.len() ==> !found@[k],
        },
{
    let mut j: usize = 0;
    while j < found.len()
        invariant
            j <= found@.len(),
            forall|k: int| 0 <= k < j ==> !found@[k],
        decreases found@.len() - j,
    {
        if found[j] {
            return Some(j);
        }
        j = j + 1;
    }
    None
}

/// The verdict of the blessed-output comparison: the generated bytes equal
/// the committed reference bytes.
pub open spec fn bless_verdict(output: Seq<u8>, blessed: Seq<u8>) -> bool {
    output == blessed
}

/// Compare generated output against the blessed reference, byte for byte.
pub fn bless_check(output: &Vec<u8>, blessed: &Vec<u8>) -> (r: bool)
    ensures
        r == bless_verdict(output@, blessed@),
{
    if output.len() != blessed.len() {
        return false;
    }
    let mut j: usize = 0;
    while j < output.len()
        invariant
            output@.len() == blessed@.len(),
            j <= output@.len(),
            forall|k: int| 0 <= k < j ==> output@[k] == blessed@[k],
        decreases output@.len() - j,
    {
        if output[j] != blessed[j] {
            return false;
        }
        j = j + 1;
    }
    proof {
        assert(output@ =~= blessed@);
    }
    true
}

/// The new blessed reference written by the update mode: a copy of the
/// generated output.
pub fn bless_update(output: &Vec<u8>) -> (r: Vec<u8>)
    ensures
        r@ == output@,
{
    let mut r: Vec<u8> = Vec::new();
    let mut j: usize = 0;
    while j < output.len()
        invariant
            j <= output@.len(),
            r@ == output@.take(j as int),
        decreases output@.len() - j,
    {
        r.push(output[j]);
        proof {
            assert(output@.take(j as int + 1) =~= output@.take(j as int).push(output@[j as int]));
        }
        j = j + 1;
    }
    proof {
        assert(output@.take(output@.len() as int) =~= output@);
    }
    r
}

/// Law: the two-mode check is idempotent.  For fixed generated output and a
/// fixed reference, the comparison gives the same verdict however often it
/// runs; and after the update mode rewrites the reference, the comparison
/// passes.
pub proof fn lemma_bless_modes(output: Seq<u8>, blessed: Seq<u8>, v1: bool, v2: bool)
    requires
        v1 == bless_verdict(output, blessed),
        v2 == bless_verdict(output, blessed),
    ensures
        v1 == v2,
        bless_verdict(output, output),
{
}

} // verus!
