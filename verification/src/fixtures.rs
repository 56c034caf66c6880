//! Sample submissions: for every language an answer, code to start from, code that does not
//! compile, and the tests.
//!
//! Whatever runs submissions is checked with these, so that no two places check different
//! things. They have the form of real problems.

use vstd::prelude::*;

use crate::contract::{TEST_FAILED_MARKER, TEST_OK_MARKER};
use crate::language::Language;
use crate::text::{blank, occurs_at, occurs_in, white_space};

verus! {

pub struct Fixture {
    /// Passes every test.
    pub answer: &'static str,
    /// Compiles and does not pass.
    pub starter: &'static str,
    /// Does not compile, type-check or parse.
    pub broken: &'static str,
    /// The tests, which are put behind the submission.
    pub hidden_tests: &'static str,
}

pub const RUST_ANSWER: &'static str =
    "pub fn add(a: i32, b: i32) -> i32 { a + b }";

pub const RUST_STARTER: &'static str =
    "pub fn add(a: i32, b: i32) -> i32 { todo!() }";

pub const RUST_BROKEN: &'static str =
    "pub fn add(a: i32, b: i32) -> i32 { let x: i32 = \"nope\"; x }";

pub const RUST_TESTS: &'static str =
    "#[test]\nfn pos() { assert_eq!(add(1, 2), 3); }\n#[test]\nfn zero() { assert_eq!(add(0, 0), 0); }";

pub const CPP_ANSWER: &'static str =
    "int add(int a, int b) { return a + b; }";

pub const CPP_STARTER: &'static str =
    "int add(int a, int b) { return 0; }";

pub const CPP_BROKEN: &'static str =
    "int add(int a, int b) { int x = \"nope\"; return x; }";

pub const CPP_TESTS: &'static str =
    "#include <iostream>\nstatic int f = 0;\nstatic void chk(bool c, const char* n) { if (!c) { std::cerr << \"FAILED: \" << n << \"\\n\"; f++; } }\nint main() { chk(add(1,2)==3, \"pos\"); chk(add(0,0)==0, \"zero\"); if (f) { std::cout << \"test result: FAILED\\n\"; return 1; } std::cout << \"test result: ok\\n\"; return 0; }";

pub const CSHARP_ANSWER: &'static str =
    "using System;\nclass Solution { public static int Add(int a, int b) { return a + b; } }";

pub const CSHARP_STARTER: &'static str =
    "using System;\nclass Solution { public static int Add(int a, int b) { return 0; } }";

pub const CSHARP_BROKEN: &'static str =
    "using System;\nclass Solution { public static int Add(int a, int b) { string s = 1; return 0; } }";

pub const CSHARP_TESTS: &'static str =
    "class KnockTests {\n  static int f = 0;\n  static void Chk(bool c, string n) { if (!c) { System.Console.Error.WriteLine(\"FAILED: \" + n); f++; } }\n  static int Main() { Chk(Solution.Add(1,2)==3, \"pos\"); Chk(Solution.Add(0,0)==0, \"zero\"); if (f > 0) { System.Console.WriteLine(\"test result: FAILED\"); return 1; } System.Console.WriteLine(\"test result: ok\"); return 0; }\n}";

pub const JAVA_ANSWER: &'static str =
    "class Solution { static int add(int a, int b) { return a + b; } }";

pub const JAVA_STARTER: &'static str =
    "class Solution { static int add(int a, int b) { return 0; } }";

pub const JAVA_BROKEN: &'static str =
    "class Solution { static int add(int a, int b) { String s = 1; return 0; } }";

pub const JAVA_TESTS: &'static str =
    "class Main {\n  static int f = 0;\n  static void chk(boolean c, String n) { if (!c) { System.err.println(\"FAILED: \" + n); f++; } }\n  public static void main(String[] a) { chk(Solution.add(1,2)==3, \"pos\"); chk(Solution.add(0,0)==0, \"zero\"); if (f > 0) { System.out.println(\"test result: FAILED\"); System.exit(1); } System.out.println(\"test result: ok\"); }\n}";

pub const PYTHON_ANSWER: &'static str =
    "def add(a, b):\n    return a + b";

pub const PYTHON_STARTER: &'static str =
    "def add(a, b):\n    raise NotImplementedError";

pub const PYTHON_BROKEN: &'static str =
    "def add(a, b)\n    return a + b";

pub const PYTHON_TESTS: &'static str =
    "import sys\n_f = 0\ndef _chk(c, n):\n    global _f\n    if not c:\n        print(\"FAILED: \" + n, file=sys.stderr); _f += 1\n_chk(add(1, 2) == 3, \"pos\")\n_chk(add(0, 0) == 0, \"zero\")\nif _f > 0:\n    print(\"test result: FAILED\"); sys.exit(1)\nprint(\"test result: ok\")";

pub const TYPESCRIPT_ANSWER: &'static str =
    "function add(a: number, b: number): number { return a + b; }";

pub const TYPESCRIPT_STARTER: &'static str =
    "function add(a: number, b: number): number { throw new Error(\"TODO\"); }";

pub const TYPESCRIPT_BROKEN: &'static str =
    "function add(a: number, b: number): number { const s: string = a + b; return s; }";

pub const TYPESCRIPT_TESTS: &'static str =
    "declare const process: { exit(code: number): never };\nlet __f = 0;\nfunction __chk(c: boolean, n: string): void { if (!c) { console.error(\"FAILED: \" + n); __f++; } }\n__chk(add(1, 2) === 3, \"pos\");\n__chk(add(0, 0) === 0, \"zero\");\nif (__f > 0) { console.log(\"test result: FAILED\"); process.exit(1); }\nconsole.log(\"test result: ok\");";

pub const JAVASCRIPT_ANSWER: &'static str =
    "function add(a, b) { return a + b; }";

pub const JAVASCRIPT_STARTER: &'static str =
    "function add(a, b) { }";

pub const JAVASCRIPT_BROKEN: &'static str =
    "function add(a, b) { return a + ; }";

pub const JAVASCRIPT_TESTS: &'static str =
    "let __f = 0;\nfunction __chk(c, n) { if (!c) { console.error(\"FAILED: \" + n); __f++; } }\n__chk(add(1, 2) === 3, \"pos\");\n__chk(add(0, 0) === 0, \"zero\");\nif (__f > 0) { console.log(\"test result: FAILED\"); process.exit(1); }\nconsole.log(\"test result: ok\");";

/// What stands in every error message of a compiler.
pub open spec fn error_signature(language: Language) -> Seq<char> {
    match language {
        Language::Rust => "error[E"@,
        Language::Cpp => "error:"@,
        Language::Csharp => "error CS"@,
        Language::Java => "error:"@,
        Language::Python => "SyntaxError"@,
        Language::Typescript => "error TS"@,
        Language::Javascript => "SyntaxError"@,
    }
}

/// What stands in every error message of the language's compiler, in its own form.
pub fn compiler_error_signature(language: Language) -> (s: &'static str)
    ensures
        s@ == error_signature(language),
{
    match language {
        Language::Rust => "error[E",
        Language::Cpp => "error:",
        Language::Csharp => "error CS",
        Language::Java => "error:",
        Language::Python => "SyntaxError",
        Language::Typescript => "error TS",
        Language::Javascript => "SyntaxError",
    }
}

/// The sample of a language.
pub open spec fn fixture_of(language: Language) -> Fixture {
    match language {
        Language::Rust => Fixture {
            answer: RUST_ANSWER,
            starter: RUST_STARTER,
            broken: RUST_BROKEN,
            hidden_tests: RUST_TESTS,
        },
        Language::Cpp => Fixture {
            answer: CPP_ANSWER,
            starter: CPP_STARTER,
            broken: CPP_BROKEN,
            hidden_tests: CPP_TESTS,
        },
        Language::Csharp => Fixture {
            answer: CSHARP_ANSWER,
            starter: CSHARP_STARTER,
            broken: CSHARP_BROKEN,
            hidden_tests: CSHARP_TESTS,
        },
        Language::Java => Fixture {
            answer: JAVA_ANSWER,
            starter: JAVA_STARTER,
            broken: JAVA_BROKEN,
            hidden_tests: JAVA_TESTS,
        },
        Language::Python => Fixture {
            answer: PYTHON_ANSWER,
            starter: PYTHON_STARTER,
            broken: PYTHON_BROKEN,
            hidden_tests: PYTHON_TESTS,
        },
        Language::Typescript => Fixture {
            answer: TYPESCRIPT_ANSWER,
            starter: TYPESCRIPT_STARTER,
            broken: TYPESCRIPT_BROKEN,
            hidden_tests: TYPESCRIPT_TESTS,
        },
        Language::Javascript => Fixture {
            answer: JAVASCRIPT_ANSWER,
            starter: JAVASCRIPT_STARTER,
            broken: JAVASCRIPT_BROKEN,
            hidden_tests: JAVASCRIPT_TESTS,
        },
    }
}

/// The sample of a language.
pub fn for_language(language: Language) -> (fixture: Fixture)
    ensures
        fixture == fixture_of(language),
{
    match language {
        Language::Rust => Fixture {
            answer: RUST_ANSWER,
            starter: RUST_STARTER,
            broken: RUST_BROKEN,
            hidden_tests: RUST_TESTS,
        },
        Language::Cpp => Fixture {
            answer: CPP_ANSWER,
            starter: CPP_STARTER,
            broken: CPP_BROKEN,
            hidden_tests: CPP_TESTS,
        },
        Language::Csharp => Fixture {
            answer: CSHARP_ANSWER,
            starter: CSHARP_STARTER,
            broken: CSHARP_BROKEN,
            hidden_tests: CSHARP_TESTS,
        },
        Language::Java => Fixture {
            answer: JAVA_ANSWER,
            starter: JAVA_STARTER,
            broken: JAVA_BROKEN,
            hidden_tests: JAVA_TESTS,
        },
        Language::Python => Fixture {
            answer: PYTHON_ANSWER,
            starter: PYTHON_STARTER,
            broken: PYTHON_BROKEN,
            hidden_tests: PYTHON_TESTS,
        },
        Language::Typescript => Fixture {
            answer: TYPESCRIPT_ANSWER,
            starter: TYPESCRIPT_STARTER,
            broken: TYPESCRIPT_BROKEN,
            hidden_tests: TYPESCRIPT_TESTS,
        },
        Language::Javascript => Fixture {
            answer: JAVASCRIPT_ANSWER,
            starter: JAVASCRIPT_STARTER,
            broken: JAVASCRIPT_BROKEN,
            hidden_tests: JAVASCRIPT_TESTS,
        },
    }
}

// ---- Laws ----

/// No text of a sample is blank, its answer is neither its starting point nor its broken
/// variant, and its tests print both markers. In Rust `cargo test` prints the markers, and the
/// sample only says which functions are tests.
pub proof fn lemma_samples(language: Language)
    ensures
        !blank(fixture_of(language).answer@),
        !blank(fixture_of(language).starter@),
        !blank(fixture_of(language).broken@),
        !blank(fixture_of(language).hidden_tests@),
        fixture_of(language).answer@ != fixture_of(language).starter@,
        fixture_of(language).answer@ != fixture_of(language).broken@,
        if language == Language::Rust {
            occurs_in(fixture_of(language).hidden_tests@, "#[test]"@)
        } else {
            &&& occurs_in(fixture_of(language).hidden_tests@, TEST_OK_MARKER@)
            &&& occurs_in(fixture_of(language).hidden_tests@, TEST_FAILED_MARKER@)
        },
{
    reveal_strlit("#[test]");
    reveal_strlit("test result: ok");
    reveal_strlit("test result: FAILED");
    match language {
        Language::Rust => {
            reveal_strlit(
                "pub fn add(a: i32, b: i32) -> i32 { a + b }",
            );
            reveal_strlit(
                "pub fn add(a: i32, b: i32) -> i32 { todo!() }",
            );
            reveal_strlit(
                "pub fn add(a: i32, b: i32) -> i32 { let x: i32 = \"nope\"; x }",
            );
            reveal_strlit(
                "#[test]\nfn pos() { assert_eq!(add(1, 2), 3); }\n#[test]\nfn zero() { assert_eq!(add(0, 0), 0); }",
            );
            assert(RUST_ANSWER@[36] != RUST_STARTER@[36]);
            assert(RUST_ANSWER@[36] != RUST_BROKEN@[36]);
            assert(!white_space(RUST_ANSWER@[0]));
            assert(!white_space(RUST_STARTER@[0]));
            assert(!white_space(RUST_BROKEN@[0]));
            assert(!white_space(RUST_TESTS@[0]));
            assert(RUST_TESTS@.subrange(0, 7) =~= "#[test]"@);
            assert(occurs_at(RUST_TESTS@, "#[test]"@, 0));
        },
        Language::Cpp => {
            reveal_strlit(
                "int add(int a, int b) { return a + b; }",
            );
            reveal_strlit(
                "int add(int a, int b) { return 0; }",
            );
            reveal_strlit(
                "int add(int a, int b) { int x = \"nope\"; return x; }",
            );
            reveal_strlit(
                "#include <iostream>\nstatic int f = 0;\nstatic void chk(bool c, const char* n) { if (!c) { std::cerr << \"FAILED: \" << n << \"\\n\"; f++; } }\nint main() { chk(add(1,2)==3, \"pos\"); chk(add(0,0)==0, \"zero\"); if (f) { std::cout << \"test result: FAILED\\n\"; return 1; } std::cout << \"test result: ok\\n\"; return 0; }",
            );
            assert(CPP_ANSWER@[31] != CPP_STARTER@[31]);
            assert(CPP_ANSWER@[24] != CPP_BROKEN@[24]);
            assert(!white_space(CPP_ANSWER@[0]));
            assert(!white_space(CPP_STARTER@[0]));
            assert(!white_space(CPP_BROKEN@[0]));
            assert(!white_space(CPP_TESTS@[0]));
            assert(CPP_TESTS@.subrange(273, 288) =~= TEST_OK_MARKER@);
            assert(occurs_at(CPP_TESTS@, TEST_OK_MARKER@, 273));
            assert(CPP_TESTS@.subrange(223, 242) =~= TEST_FAILED_MARKER@);
            assert(occurs_at(CPP_TESTS@, TEST_FAILED_MARKER@, 223));
        },
        Language::Csharp => {
            reveal_strlit(
                "using System;\nclass Solution { public static int Add(int a, int b) { return a + b; } }",
            );
            reveal_strlit(
                "using System;\nclass Solution { public static int Add(int a, int b) { return 0; } }",
            );
            reveal_strlit(
                "using System;\nclass Solution { public static int Add(int a, int b) { string s = 1; return 0; } }",
            );
            reveal_strlit(
                "class KnockTests {\n  static int f = 0;\n  static void Chk(bool c, string n) { if (!c) { System.Console.Error.WriteLine(\"FAILED: \" + n); f++; } }\n  static int Main() { Chk(Solution.Add(1,2)==3, \"pos\"); Chk(Solution.Add(0,0)==0, \"zero\"); if (f > 0) { System.Console.WriteLine(\"test result: FAILED\"); return 1; } System.Console.WriteLine(\"test result: ok\"); return 0; }\n}",
            );
            assert(CSHARP_ANSWER@[76] != CSHARP_STARTER@[76]);
            assert(CSHARP_ANSWER@[69] != CSHARP_BROKEN@[69]);
            assert(!white_space(CSHARP_ANSWER@[0]));
            assert(!white_space(CSHARP_STARTER@[0]));
            assert(!white_space(CSHARP_BROKEN@[0]));
            assert(!white_space(CSHARP_TESTS@[0]));
            assert(CSHARP_TESTS@.subrange(335, 350) =~= TEST_OK_MARKER@);
            assert(occurs_at(CSHARP_TESTS@, TEST_OK_MARKER@, 335));
            assert(CSHARP_TESTS@.subrange(274, 293) =~= TEST_FAILED_MARKER@);
            assert(occurs_at(CSHARP_TESTS@, TEST_FAILED_MARKER@, 274));
        },
        Language::Java => {
            reveal_strlit(
                "class Solution { static int add(int a, int b) { return a + b; } }",
            );
            reveal_strlit(
                "class Solution { static int add(int a, int b) { return 0; } }",
            );
            reveal_strlit(
                "class Solution { static int add(int a, int b) { String s = 1; return 0; } }",
            );
            reveal_strlit(
                "class Main {\n  static int f = 0;\n  static void chk(boolean c, String n) { if (!c) { System.err.println(\"FAILED: \" + n); f++; } }\n  public static void main(String[] a) { chk(Solution.add(1,2)==3, \"pos\"); chk(Solution.add(0,0)==0, \"zero\"); if (f > 0) { System.out.println(\"test result: FAILED\"); System.exit(1); } System.out.println(\"test result: ok\"); }\n}",
            );
            assert(JAVA_ANSWER@[55] != JAVA_STARTER@[55]);
            assert(JAVA_ANSWER@[48] != JAVA_BROKEN@[48]);
            assert(!white_space(JAVA_ANSWER@[0]));
            assert(!white_space(JAVA_STARTER@[0]));
            assert(!white_space(JAVA_BROKEN@[0]));
            assert(!white_space(JAVA_TESTS@[0]));
            assert(JAVA_TESTS@.subrange(332, 347) =~= TEST_OK_MARKER@);
            assert(occurs_at(JAVA_TESTS@, TEST_OK_MARKER@, 332));
            assert(JAVA_TESTS@.subrange(271, 290) =~= TEST_FAILED_MARKER@);
            assert(occurs_at(JAVA_TESTS@, TEST_FAILED_MARKER@, 271));
        },
        Language::Python => {
            reveal_strlit(
                "def add(a, b):\n    return a + b",
            );
            reveal_strlit(
                "def add(a, b):\n    raise NotImplementedError",
            );
            reveal_strlit(
                "def add(a, b)\n    return a + b",
            );
            reveal_strlit(
                "import sys\n_f = 0\ndef _chk(c, n):\n    global _f\n    if not c:\n        print(\"FAILED: \" + n, file=sys.stderr); _f += 1\n_chk(add(1, 2) == 3, \"pos\")\n_chk(add(0, 0) == 0, \"zero\")\nif _f > 0:\n    print(\"test result: FAILED\"); sys.exit(1)\nprint(\"test result: ok\")",
            );
            assert(PYTHON_ANSWER@[20] != PYTHON_STARTER@[20]);
            assert(PYTHON_ANSWER@[13] != PYTHON_BROKEN@[13]);
            assert(!white_space(PYTHON_ANSWER@[0]));
            assert(!white_space(PYTHON_STARTER@[0]));
            assert(!white_space(PYTHON_BROKEN@[0]));
            assert(!white_space(PYTHON_TESTS@[0]));
            assert(PYTHON_TESTS@.subrange(239, 254) =~= TEST_OK_MARKER@);
            assert(occurs_at(PYTHON_TESTS@, TEST_OK_MARKER@, 239));
            assert(PYTHON_TESTS@.subrange(197, 216) =~= TEST_FAILED_MARKER@);
            assert(occurs_at(PYTHON_TESTS@, TEST_FAILED_MARKER@, 197));
        },
        Language::Typescript => {
            reveal_strlit(
                "function add(a: number, b: number): number { return a + b; }",
            );
            reveal_strlit(
                "function add(a: number, b: number): number { throw new Error(\"TODO\"); }",
            );
            reveal_strlit(
                "function add(a: number, b: number): number { const s: string = a + b; return s; }",
            );
            reveal_strlit(
                "declare const process: { exit(code: number): never };\nlet __f = 0;\nfunction __chk(c: boolean, n: string): void { if (!c) { console.error(\"FAILED: \" + n); __f++; } }\n__chk(add(1, 2) === 3, \"pos\");\n__chk(add(0, 0) === 0, \"zero\");\nif (__f > 0) { console.log(\"test result: FAILED\"); process.exit(1); }\nconsole.log(\"test result: ok\");",
            );
            assert(TYPESCRIPT_ANSWER@[45] != TYPESCRIPT_STARTER@[45]);
            assert(TYPESCRIPT_ANSWER@[45] != TYPESCRIPT_BROKEN@[45]);
            assert(!white_space(TYPESCRIPT_ANSWER@[0]));
            assert(!white_space(TYPESCRIPT_STARTER@[0]));
            assert(!white_space(TYPESCRIPT_BROKEN@[0]));
            assert(!white_space(TYPESCRIPT_TESTS@[0]));
            assert(TYPESCRIPT_TESTS@.subrange(311, 326) =~= TEST_OK_MARKER@);
            assert(occurs_at(TYPESCRIPT_TESTS@, TEST_OK_MARKER@, 311));
            assert(TYPESCRIPT_TESTS@.subrange(256, 275) =~= TEST_FAILED_MARKER@);
            assert(occurs_at(TYPESCRIPT_TESTS@, TEST_FAILED_MARKER@, 256));
        },
        Language::Javascript => {
            reveal_strlit(
                "function add(a, b) { return a + b; }",
            );
            reveal_strlit(
                "function add(a, b) { }",
            );
            reveal_strlit(
                "function add(a, b) { return a + ; }",
            );
            reveal_strlit(
                "let __f = 0;\nfunction __chk(c, n) { if (!c) { console.error(\"FAILED: \" + n); __f++; } }\n__chk(add(1, 2) === 3, \"pos\");\n__chk(add(0, 0) === 0, \"zero\");\nif (__f > 0) { console.log(\"test result: FAILED\"); process.exit(1); }\nconsole.log(\"test result: ok\");",
            );
            assert(JAVASCRIPT_ANSWER@[21] != JAVASCRIPT_STARTER@[21]);
            assert(JAVASCRIPT_ANSWER@[32] != JAVASCRIPT_BROKEN@[32]);
            assert(!white_space(JAVASCRIPT_ANSWER@[0]));
            assert(!white_space(JAVASCRIPT_STARTER@[0]));
            assert(!white_space(JAVASCRIPT_BROKEN@[0]));
            assert(!white_space(JAVASCRIPT_TESTS@[0]));
            assert(JAVASCRIPT_TESTS@.subrange(234, 249) =~= TEST_OK_MARKER@);
            assert(occurs_at(JAVASCRIPT_TESTS@, TEST_OK_MARKER@, 234));
            assert(JAVASCRIPT_TESTS@.subrange(179, 198) =~= TEST_FAILED_MARKER@);
            assert(occurs_at(JAVASCRIPT_TESTS@, TEST_FAILED_MARKER@, 179));
        },
    }
}

/// Every sample is written in its own language: its three variants define the function that its
/// tests call, the answer adds the two numbers, and the tests are of the same language.
pub proof fn lemma_samples_fit_their_language(language: Language)
    ensures
        ({
            let sample = fixture_of(language);
            &&& occurs_in(sample.answer@, "a + b"@)
            &&& match language {
            Language::Rust => {
                &&& "pub fn add(a: i32, b: i32) -> i32 { "@.is_prefix_of(sample.answer@)
                &&& "pub fn add(a: i32, b: i32) -> i32 { "@.is_prefix_of(sample.starter@)
                &&& "pub fn add(a: i32, b: i32) -> i32 { "@.is_prefix_of(sample.broken@)
                &&& occurs_in(sample.hidden_tests@, "assert_eq!(add(1, 2), 3);"@)
            },
            Language::Cpp => {
                &&& "int add(int a, int b) { "@.is_prefix_of(sample.answer@)
                &&& "int add(int a, int b) { "@.is_prefix_of(sample.starter@)
                &&& "int add(int a, int b) { "@.is_prefix_of(sample.broken@)
                &&& occurs_in(sample.hidden_tests@, "chk(add(1,2)==3, "@)
            },
            Language::Csharp => {
                &&& "using System;\nclass Solution { public static int Add(int a, int b) { "@.is_prefix_of(sample.answer@)
                &&& "using System;\nclass Solution { public static int Add(int a, int b) { "@.is_prefix_of(sample.starter@)
                &&& "using System;\nclass Solution { public static int Add(int a, int b) { "@.is_prefix_of(sample.broken@)
                &&& occurs_in(sample.hidden_tests@, "Chk(Solution.Add(1,2)==3, "@)
            },
            Language::Java => {
                &&& "class Solution { static int add(int a, int b) { "@.is_prefix_of(sample.answer@)
                &&& "class Solution { static int add(int a, int b) { "@.is_prefix_of(sample.starter@)
                &&& "class Solution { static int add(int a, int b) { "@.is_prefix_of(sample.broken@)
                &&& occurs_in(sample.hidden_tests@, "chk(Solution.add(1,2)==3, "@)
            },
            Language::Python => {
                &&& "def add(a, b)"@.is_prefix_of(sample.answer@)
                &&& "def add(a, b)"@.is_prefix_of(sample.starter@)
                &&& "def add(a, b)"@.is_prefix_of(sample.broken@)
                &&& occurs_in(sample.hidden_tests@, "_chk(add(1, 2) == 3, "@)
            },
            Language::Typescript => {
                &&& "function add(a: number, b: number): number { "@.is_prefix_of(sample.answer@)
                &&& "function add(a: number, b: number): number { "@.is_prefix_of(sample.starter@)
                &&& "function add(a: number, b: number): number { "@.is_prefix_of(sample.broken@)
                &&& occurs_in(sample.hidden_tests@, "__chk(c: boolean, n: string)"@)
            },
            Language::Javascript => {
                &&& "function add(a, b) { "@.is_prefix_of(sample.answer@)
                &&& "function add(a, b) { "@.is_prefix_of(sample.starter@)
                &&& "function add(a, b) { "@.is_prefix_of(sample.broken@)
                &&& occurs_in(sample.hidden_tests@, "function __chk(c, n) { "@)
            },
            }
        }),
{
    reveal_strlit("a + b");
    match language {
        Language::Rust => {
            reveal_strlit("pub fn add(a: i32, b: i32) -> i32 { ");
            reveal_strlit("assert_eq!(add(1, 2), 3);");
            reveal_strlit(
                "pub fn add(a: i32, b: i32) -> i32 { a + b }",
            );
            reveal_strlit(
                "pub fn add(a: i32, b: i32) -> i32 { todo!() }",
            );
            reveal_strlit(
                "pub fn add(a: i32, b: i32) -> i32 { let x: i32 = \"nope\"; x }",
            );
            reveal_strlit(
                "#[test]\nfn pos() { assert_eq!(add(1, 2), 3); }\n#[test]\nfn zero() { assert_eq!(add(0, 0), 0); }",
            );
            assert(RUST_ANSWER@.subrange(0, 36) =~= "pub fn add(a: i32, b: i32) -> i32 { "@);
            assert(RUST_STARTER@.subrange(0, 36) =~= "pub fn add(a: i32, b: i32) -> i32 { "@);
            assert(RUST_BROKEN@.subrange(0, 36) =~= "pub fn add(a: i32, b: i32) -> i32 { "@);
            assert(RUST_ANSWER@.subrange(36, 41) =~= "a + b"@);
            assert(occurs_at(RUST_ANSWER@, "a + b"@, 36));
            assert(RUST_TESTS@.subrange(19, 44) =~= "assert_eq!(add(1, 2), 3);"@);
            assert(occurs_at(RUST_TESTS@, "assert_eq!(add(1, 2), 3);"@, 19));
        },
        Language::Cpp => {
            reveal_strlit("int add(int a, int b) { ");
            reveal_strlit("chk(add(1,2)==3, ");
            reveal_strlit(
                "int add(int a, int b) { return a + b; }",
            );
            reveal_strlit(
                "int add(int a, int b) { return 0; }",
            );
            reveal_strlit(
                "int add(int a, int b) { int x = \"nope\"; return x; }",
            );
            reveal_strlit(
                "#include <iostream>\nstatic int f = 0;\nstatic void chk(bool c, const char* n) { if (!c) { std::cerr << \"FAILED: \" << n << \"\\n\"; f++; } }\nint main() { chk(add(1,2)==3, \"pos\"); chk(add(0,0)==0, \"zero\"); if (f) { std::cout << \"test result: FAILED\\n\"; return 1; } std::cout << \"test result: ok\\n\"; return 0; }",
            );
            assert(CPP_ANSWER@.subrange(0, 24) =~= "int add(int a, int b) { "@);
            assert(CPP_STARTER@.subrange(0, 24) =~= "int add(int a, int b) { "@);
            assert(CPP_BROKEN@.subrange(0, 24) =~= "int add(int a, int b) { "@);
            assert(CPP_ANSWER@.subrange(31, 36) =~= "a + b"@);
            assert(occurs_at(CPP_ANSWER@, "a + b"@, 31));
            assert(CPP_TESTS@.subrange(149, 166) =~= "chk(add(1,2)==3, "@);
            assert(occurs_at(CPP_TESTS@, "chk(add(1,2)==3, "@, 149));
        },
        Language::Csharp => {
            reveal_strlit("using System;\nclass Solution { public static int Add(int a, int b) { ");
            reveal_strlit("Chk(Solution.Add(1,2)==3, ");
            reveal_strlit(
                "using System;\nclass Solution { public static int Add(int a, int b) { return a + b; } }",
            );
            reveal_strlit(
                "using System;\nclass Solution { public static int Add(int a, int b) { return 0; } }",
            );
            reveal_strlit(
                "using System;\nclass Solution { public static int Add(int a, int b) { string s = 1; return 0; } }",
            );
            reveal_strlit(
                "class KnockTests {\n  static int f = 0;\n  static void Chk(bool c, string n) { if (!c) { System.Console.Error.WriteLine(\"FAILED: \" + n); f++; } }\n  static int Main() { Chk(Solution.Add(1,2)==3, \"pos\"); Chk(Solution.Add(0,0)==0, \"zero\"); if (f > 0) { System.Console.WriteLine(\"test result: FAILED\"); return 1; } System.Console.WriteLine(\"test result: ok\"); return 0; }\n}",
            );
            assert(CSHARP_ANSWER@.subrange(0, 69) =~= "using System;\nclass Solution { public static int Add(int a, int b) { "@);
            assert(CSHARP_STARTER@.subrange(0, 69) =~= "using System;\nclass Solution { public static int Add(int a, int b) { "@);
            assert(CSHARP_BROKEN@.subrange(0, 69) =~= "using System;\nclass Solution { public static int Add(int a, int b) { "@);
            assert(CSHARP_ANSWER@.subrange(76, 81) =~= "a + b"@);
            assert(occurs_at(CSHARP_ANSWER@, "a + b"@, 76));
            assert(CSHARP_TESTS@.subrange(166, 192) =~= "Chk(Solution.Add(1,2)==3, "@);
            assert(occurs_at(CSHARP_TESTS@, "Chk(Solution.Add(1,2)==3, "@, 166));
        },
        Language::Java => {
            reveal_strlit("class Solution { static int add(int a, int b) { ");
            reveal_strlit("chk(Solution.add(1,2)==3, ");
            reveal_strlit(
                "class Solution { static int add(int a, int b) { return a + b; } }",
            );
            reveal_strlit(
                "class Solution { static int add(int a, int b) { return 0; } }",
            );
            reveal_strlit(
                "class Solution { static int add(int a, int b) { String s = 1; return 0; } }",
            );
            reveal_strlit(
                "class Main {\n  static int f = 0;\n  static void chk(boolean c, String n) { if (!c) { System.err.println(\"FAILED: \" + n); f++; } }\n  public static void main(String[] a) { chk(Solution.add(1,2)==3, \"pos\"); chk(Solution.add(0,0)==0, \"zero\"); if (f > 0) { System.out.println(\"test result: FAILED\"); System.exit(1); } System.out.println(\"test result: ok\"); }\n}",
            );
            assert(JAVA_ANSWER@.subrange(0, 48) =~= "class Solution { static int add(int a, int b) { "@);
            assert(JAVA_STARTER@.subrange(0, 48) =~= "class Solution { static int add(int a, int b) { "@);
            assert(JAVA_BROKEN@.subrange(0, 48) =~= "class Solution { static int add(int a, int b) { "@);
            assert(JAVA_ANSWER@.subrange(55, 60) =~= "a + b"@);
            assert(occurs_at(JAVA_ANSWER@, "a + b"@, 55));
            assert(JAVA_TESTS@.subrange(169, 195) =~= "chk(Solution.add(1,2)==3, "@);
            assert(occurs_at(JAVA_TESTS@, "chk(Solution.add(1,2)==3, "@, 169));
        },
        Language::Python => {
            reveal_strlit("def add(a, b)");
            reveal_strlit("_chk(add(1, 2) == 3, ");
            reveal_strlit(
                "def add(a, b):\n    return a + b",
            );
            reveal_strlit(
                "def add(a, b):\n    raise NotImplementedError",
            );
            reveal_strlit(
                "def add(a, b)\n    return a + b",
            );
            reveal_strlit(
                "import sys\n_f = 0\ndef _chk(c, n):\n    global _f\n    if not c:\n        print(\"FAILED: \" + n, file=sys.stderr); _f += 1\n_chk(add(1, 2) == 3, \"pos\")\n_chk(add(0, 0) == 0, \"zero\")\nif _f > 0:\n    print(\"test result: FAILED\"); sys.exit(1)\nprint(\"test result: ok\")",
            );
            assert(PYTHON_ANSWER@.subrange(0, 13) =~= "def add(a, b)"@);
            assert(PYTHON_STARTER@.subrange(0, 13) =~= "def add(a, b)"@);
            assert(PYTHON_BROKEN@.subrange(0, 13) =~= "def add(a, b)"@);
            assert(PYTHON_ANSWER@.subrange(26, 31) =~= "a + b"@);
            assert(occurs_at(PYTHON_ANSWER@, "a + b"@, 26));
            assert(PYTHON_TESTS@.subrange(118, 139) =~= "_chk(add(1, 2) == 3, "@);
            assert(occurs_at(PYTHON_TESTS@, "_chk(add(1, 2) == 3, "@, 118));
        },
        Language::Typescript => {
            reveal_strlit("function add(a: number, b: number): number { ");
            reveal_strlit("__chk(c: boolean, n: string)");
            reveal_strlit(
                "function add(a: number, b: number): number { return a + b; }",
            );
            reveal_strlit(
                "function add(a: number, b: number): number { throw new Error(\"TODO\"); }",
            );
            reveal_strlit(
                "function add(a: number, b: number): number { const s: string = a + b; return s; }",
            );
            reveal_strlit(
                "declare const process: { exit(code: number): never };\nlet __f = 0;\nfunction __chk(c: boolean, n: string): void { if (!c) { console.error(\"FAILED: \" + n); __f++; } }\n__chk(add(1, 2) === 3, \"pos\");\n__chk(add(0, 0) === 0, \"zero\");\nif (__f > 0) { console.log(\"test result: FAILED\"); process.exit(1); }\nconsole.log(\"test result: ok\");",
            );
            assert(TYPESCRIPT_ANSWER@.subrange(0, 45) =~= "function add(a: number, b: number): number { "@);
            assert(TYPESCRIPT_STARTER@.subrange(0, 45) =~= "function add(a: number, b: number): number { "@);
            assert(TYPESCRIPT_BROKEN@.subrange(0, 45) =~= "function add(a: number, b: number): number { "@);
            assert(TYPESCRIPT_ANSWER@.subrange(52, 57) =~= "a + b"@);
            assert(occurs_at(TYPESCRIPT_ANSWER@, "a + b"@, 52));
            assert(TYPESCRIPT_TESTS@.subrange(76, 104) =~= "__chk(c: boolean, n: string)"@);
            assert(occurs_at(TYPESCRIPT_TESTS@, "__chk(c: boolean, n: string)"@, 76));
        },
        Language::Javascript => {
            reveal_strlit("function add(a, b) { ");
            reveal_strlit("function __chk(c, n) { ");
            reveal_strlit(
                "function add(a, b) { return a + b; }",
            );
            reveal_strlit(
                "function add(a, b) { }",
            );
            reveal_strlit(
                "function add(a, b) { return a + ; }",
            );
            reveal_strlit(
                "let __f = 0;\nfunction __chk(c, n) { if (!c) { console.error(\"FAILED: \" + n); __f++; } }\n__chk(add(1, 2) === 3, \"pos\");\n__chk(add(0, 0) === 0, \"zero\");\nif (__f > 0) { console.log(\"test result: FAILED\"); process.exit(1); }\nconsole.log(\"test result: ok\");",
            );
            assert(JAVASCRIPT_ANSWER@.subrange(0, 21) =~= "function add(a, b) { "@);
            assert(JAVASCRIPT_STARTER@.subrange(0, 21) =~= "function add(a, b) { "@);
            assert(JAVASCRIPT_BROKEN@.subrange(0, 21) =~= "function add(a, b) { "@);
            assert(JAVASCRIPT_ANSWER@.subrange(28, 33) =~= "a + b"@);
            assert(occurs_at(JAVASCRIPT_ANSWER@, "a + b"@, 28));
            assert(JAVASCRIPT_TESTS@.subrange(13, 36) =~= "function __chk(c, n) { "@);
            assert(occurs_at(JAVASCRIPT_TESTS@, "function __chk(c, n) { "@, 13));
        },
    }
}

/// What stands in every error message is what the compiler writes before an error's number or
/// its text, or the name of the error.
pub proof fn lemma_signatures(language: Language)
    ensures
        error_signature(language) == match language {
            Language::Rust => "error[E"@,
            Language::Csharp => "error CS"@,
            Language::Typescript => "error TS"@,
            Language::Cpp | Language::Java => "error:"@,
            Language::Python | Language::Javascript => "SyntaxError"@,
        },
{
}

} // verus!
