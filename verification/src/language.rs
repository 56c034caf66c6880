//! The languages a submission can be written in.
//!
//! All of them run on the same image with commands from [`crate::runner`], so nothing here
//! chooses a place to run.

use vstd::prelude::*;

use crate::text::{join, joined, same, texts};

verus! {

#[derive(Clone, Copy, Debug, PartialEq, Eq, Hash, Structural)]
pub enum Language {
    Rust,
    Cpp,
    Csharp,
    Java,
    Python,
    Typescript,
    Javascript,
}

/// Flags for the TypeScript compiler. Without a fixed target, answers that use newer library
/// functions fail to compile.
pub const TSC_FLAGS: [&'static str; 2] = ["--target", "es2020"];

/// The TypeScript flags as they stand on a command line.
pub open spec fn tsc_flags_text() -> Seq<char> {
    TSC_FLAGS[0]@ + " "@ + TSC_FLAGS[1]@
}

/// The TypeScript flags as they stand on a command line, separated by spaces.
pub fn tsc_flags_cli() -> (s: String)
    ensures
        s@ == tsc_flags_text(),
{
    let mut flags: Vec<String> = Vec::new();
    let mut i: usize = 0;
    while i < TSC_FLAGS.len()
        invariant
            i <= 2,
            flags@.len() == i,
            forall|j: int| 0 <= j < i ==> (#[trigger] flags@[j])@ == TSC_FLAGS[j]@,
        decreases 2 - i,
    {
        flags.push(TSC_FLAGS[i].to_string());
        i += 1;
    }
    let s: String = join(&flags, " ");
    let ghost parts = texts(flags@);
    assert(parts.drop_last() =~= seq![TSC_FLAGS[0]@]);
    assert(s@ == joined(parts.drop_last(), " "@) + " "@ + parts.last());
    s
}

impl Language {
    pub const ALL: [Language; 7] = [
        Language::Rust,
        Language::Cpp,
        Language::Csharp,
        Language::Java,
        Language::Python,
        Language::Typescript,
        Language::Javascript,
    ];

    /// The identifier of the language.
    pub open spec fn slug_text(self) -> Seq<char> {
        match self {
            Language::Rust => "rust"@,
            Language::Cpp => "cpp"@,
            Language::Csharp => "csharp"@,
            Language::Java => "java"@,
            Language::Python => "python"@,
            Language::Typescript => "typescript"@,
            Language::Javascript => "javascript"@,
        }
    }

    /// The identifier used in URLs, directory names and storage keys. It is also how the
    /// language is written in JSON.
    pub fn slug(self) -> (s: &'static str)
        ensures
            s@ == self.slug_text(),
    {
        match self {
            Language::Rust => "rust",
            Language::Cpp => "cpp",
            Language::Csharp => "csharp",
            Language::Java => "java",
            Language::Python => "python",
            Language::Typescript => "typescript",
            Language::Javascript => "javascript",
        }
    }

    pub fn from_slug(s: &str) -> (found: Option<Language>)
        ensures
            forall|l: Language| found == Some(l) <==> s@ == #[trigger] l.slug_text(),
    {
        let mut i: usize = 0;
        while i < 7
            invariant
                i <= 7,
                forall|j: int| 0 <= j < i ==> s@ != (#[trigger] Language::ALL[j]).slug_text(),
            decreases 7 - i,
        {
            let l: Language = Language::ALL[i];
            if same(l.slug(), s) {
                assert forall|m: Language| s@ == #[trigger] m.slug_text() implies m == l by {
                    lemma_slugs_are_unique(l, m);
                }
                return Some(l);
            }
            i += 1;
        }
        None
    }

    /// The name of the language as it is displayed.
    pub open spec fn label_text(self) -> Seq<char> {
        match self {
            Language::Rust => "Rust"@,
            Language::Cpp => "C++"@,
            Language::Csharp => "C#"@,
            Language::Java => "Java"@,
            Language::Python => "Python"@,
            Language::Typescript => "TypeScript"@,
            Language::Javascript => "JavaScript"@,
        }
    }

    /// The name of the language as it is displayed.
    pub fn label(self) -> (s: &'static str)
        ensures
            s@ == self.label_text(),
    {
        match self {
            Language::Rust => "Rust",
            Language::Cpp => "C++",
            Language::Csharp => "C#",
            Language::Java => "Java",
            Language::Python => "Python",
            Language::Typescript => "TypeScript",
            Language::Javascript => "JavaScript",
        }
    }

    /// The mode of the code editor.
    pub fn editor_mode(self) -> (s: &'static str)
        ensures
            s@ == self.slug_text(),
    {
        self.slug()
    }

    /// What a line comment begins with.
    pub open spec fn line_comment_text(self) -> Seq<char> {
        if self == Language::Python {
            "#"@
        } else {
            "//"@
        }
    }

    /// What a line comment begins with. The comment that separates a submission from its
    /// tests uses it, and `//` would be a syntax error in Python.
    pub fn line_comment(self) -> (s: &'static str)
        ensures
            s@ == self.line_comment_text(),
    {
        match self {
            Language::Python => "#",
            _ => "//",
        }
    }

    /// The file that a submission is written to.
    pub open spec fn source_file_text(self) -> Seq<char> {
        match self {
            Language::Rust => "lib.rs"@,
            Language::Cpp => "prog.cc"@,
            Language::Csharp => "prog.cs"@,
            Language::Java => "prog.java"@,
            Language::Python => "prog.py"@,
            Language::Typescript => "prog.ts"@,
            Language::Javascript => "prog.js"@,
        }
    }

    /// The file that a submission is written to, the same in production and in verification.
    pub fn source_file_name(self) -> (s: &'static str)
        ensures
            s@ == self.source_file_text(),
    {
        match self {
            Language::Rust => "lib.rs",
            Language::Cpp => "prog.cc",
            Language::Csharp => "prog.cs",
            Language::Java => "prog.java",
            Language::Python => "prog.py",
            Language::Typescript => "prog.ts",
            Language::Javascript => "prog.js",
        }
    }
}

// ---- Laws ----

/// Two languages with the same slug are the same language.
pub proof fn lemma_slugs_are_unique(a: Language, b: Language)
    ensures
        a.slug_text() == b.slug_text() ==> a == b,
{
    reveal_strlit("rust");
    reveal_strlit("cpp");
    reveal_strlit("csharp");
    reveal_strlit("java");
    reveal_strlit("python");
    reveal_strlit("typescript");
    reveal_strlit("javascript");
    let (x, y) = (a.slug_text(), b.slug_text());
    assert(x == y ==> x.len() == y.len() && x[0] == y[0]);
}

/// Two languages whose submissions are written to the same file are the same language.
pub proof fn lemma_source_files_are_unique(a: Language, b: Language)
    ensures
        a.source_file_text() == b.source_file_text() ==> a == b,
{
    reveal_strlit("lib.rs");
    reveal_strlit("prog.cc");
    reveal_strlit("prog.cs");
    reveal_strlit("prog.java");
    reveal_strlit("prog.py");
    reveal_strlit("prog.ts");
    reveal_strlit("prog.js");
    let (x, y) = (a.source_file_text(), b.source_file_text());
    assert(x == y ==> x.len() == y.len() && x[5] == y[5] && x[6] == y[6]);
}

/// `Language::ALL` holds every language.
pub proof fn lemma_all_is_complete(l: Language)
    ensures
        exists|i: int| 0 <= i < 7 && #[trigger] Language::ALL[i] == l,
{
    let at: int = match l {
        Language::Rust => 0,
        Language::Cpp => 1,
        Language::Csharp => 2,
        Language::Java => 3,
        Language::Python => 4,
        Language::Typescript => 5,
        Language::Javascript => 6,
    };
    assert(Language::ALL[at] == l);
}

/// The slugs are the names of the languages in small letters, as they stand in URLs, in stored
/// keys and in JSON, and the names that are displayed are spelt as usual.
pub proof fn lemma_names(l: Language)
    ensures
        match l {
            Language::Rust => l.slug_text() == "rust"@ && l.label_text() == "Rust"@,
            Language::Cpp => l.slug_text() == "cpp"@ && l.label_text() == "C++"@,
            Language::Csharp => l.slug_text() == "csharp"@ && l.label_text() == "C#"@,
            Language::Java => l.slug_text() == "java"@ && l.label_text() == "Java"@,
            Language::Python => l.slug_text() == "python"@ && l.label_text() == "Python"@,
            Language::Typescript => l.slug_text() == "typescript"@ && l.label_text()
                == "TypeScript"@,
            Language::Javascript => l.slug_text() == "javascript"@ && l.label_text()
                == "JavaScript"@,
        },
        l == Language::Python <==> l.line_comment_text() == "#"@,
        l != Language::Python ==> l.line_comment_text() == "//"@,
{
    reveal_strlit("#");
    reveal_strlit("//");
    assert("#"@.len() != "//"@.len());
}

} // verus!
