//! Build settings: the compilation profile, the C compiler to hand the generated code to,
//! and how that compiler is invoked.
use vstd::prelude::*;
use vstd::string::StringExecFns;
use crate::text::str_eq;

verus! {

#[derive(Debug, Clone, Copy, PartialEq, Eq, Structural, Hash)]
pub enum CompilationFlag {
    Release,
    Debug,
}

/// The C compilers the generated code can be compiled with.
#[derive(Debug, Clone, Copy, PartialEq, Eq, Structural, Hash)]
pub enum SupportedCompiler {
    TinyCC,
    GCC,
    MSVC,
    Clang,
    Intel,
    /// Stop after generating the C code.
    NoCompiler,
}

/// ASCII letters made lower case, other characters kept.
pub open spec fn ascii_lower(s: Seq<char>) -> Seq<char> {
    s.map_values(|c: char| if 'A' <= c <= 'Z' { ((c as u32) + 32) as char } else { c })
}

/// The compiler a name selects, ignoring case; unknown names select TinyCC. (Lower-casing
/// turns no non-ASCII character into a letter of these names, so ASCII lower-casing
/// decides the same as full Unicode lower-casing.)
pub open spec fn compiler_named(s: Seq<char>) -> SupportedCompiler {
    let l = ascii_lower(s);
    if l == "tinycc"@ || l == "tcc"@ {
        SupportedCompiler::TinyCC
    } else if l == "gcc"@ {
        SupportedCompiler::GCC
    } else if l == "msvc"@ || l == "cl"@ {
        SupportedCompiler::MSVC
    } else if l == "clang"@ {
        SupportedCompiler::Clang
    } else if l == "intel"@ || l == "icc"@ {
        SupportedCompiler::Intel
    } else if l == "none"@ {
        SupportedCompiler::NoCompiler
    } else {
        SupportedCompiler::TinyCC
    }
}

/// Lower-casing twice is lower-casing once.
proof fn lemma_ascii_lower_idempotent(s: Seq<char>)
    ensures
        ascii_lower(ascii_lower(s)) == ascii_lower(s),
{
    assert(ascii_lower(ascii_lower(s)) =~= ascii_lower(s));
}

/// Compiler names are case-insensitive: a name selects what its lower-case spelling
/// selects.
pub proof fn lemma_compiler_names_ignore_case(s: Seq<char>)
    ensures
        compiler_named(ascii_lower(s)) == compiler_named(s),
{
    lemma_ascii_lower_idempotent(s);
}

fn lower_ascii(s: &str) -> (r: String)
    ensures
        r@ == ascii_lower(s@),
{
    let cs = crate::text::chars_of(s);
    let mut out = String::new();
    let mut k: usize = 0;
    while k < cs.len()
        invariant
            k <= cs.len(),
            cs@ == s@,
            out@ =~= ascii_lower(s@.subrange(0, k as int)),
        decreases cs.len() - k,
    {
        let c = cs[k];
        let l = if 'A' <= c && c <= 'Z' {
            let b: u8 = ((c as u32) + 32) as u8;
            b as char
        } else {
            c
        };
        out.push(l);
        proof {
            assert(ascii_lower(s@.subrange(0, k + 1)) =~= ascii_lower(s@.subrange(0, k as int)).push(l));
        }
        k = k + 1;
    }
    proof {
        assert(s@.subrange(0, cs.len() as int) =~= s@);
    }
    out
}

impl SupportedCompiler {
    /// The compiler a name selects (case-insensitively); unknown names select TinyCC.
    pub fn from_name(s: &str) -> (r: SupportedCompiler)
        ensures
            r == compiler_named(s@),
    {
        let l = lower_ascii(s);
        let l = l.as_str();
        if str_eq(l, "tinycc") || str_eq(l, "tcc") {
            SupportedCompiler::TinyCC
        } else if str_eq(l, "gcc") {
            SupportedCompiler::GCC
        } else if str_eq(l, "msvc") || str_eq(l, "cl") {
            SupportedCompiler::MSVC
        } else if str_eq(l, "clang") {
            SupportedCompiler::Clang
        } else if str_eq(l, "intel") || str_eq(l, "icc") {
            SupportedCompiler::Intel
        } else if str_eq(l, "none") {
            SupportedCompiler::NoCompiler
        } else {
            SupportedCompiler::TinyCC
        }
    }
}

impl std::str::FromStr for SupportedCompiler {
    type Err = ();

    fn from_str(s: &str) -> (r: Result<Self, Self::Err>)
        ensures
            r == Ok::<SupportedCompiler, ()>(compiler_named(s@)),
    {
        Ok(SupportedCompiler::from_name(s))
    }
}

/// TinyCC's compilation state, seen only through pointers that its C interface hands out.
#[derive(Debug)]
pub struct TCCState {
    _private: [u8; 0],
}

/// What TinyCC is asked to produce.
#[derive(Debug, Clone, Copy, PartialEq, Eq, Structural)]
pub enum OutputType {
    Memory,
    Exe,
    Dll,
    Obj,
    Preprocess,
}

impl OutputType {
    /// The number TinyCC's C interface uses for the output type.
    pub fn code(self) -> (r: i32)
        ensures
            r == match self {
                OutputType::Memory => 1i32,
                OutputType::Exe => 2i32,
                OutputType::Dll => 3i32,
                OutputType::Obj => 4i32,
                OutputType::Preprocess => 5i32,
            },
    {
        match self {
            OutputType::Memory => 1,
            OutputType::Exe => 2,
            OutputType::Dll => 3,
            OutputType::Obj => 4,
            OutputType::Preprocess => 5,
        }
    }
}

/// The `src/main.atlas` of a new project.
pub const DEFAULT_INIT_CODE: &'static str = "import \"std/io\";\n\nfun main() {\n    print(\"Hello, Atlas!\");\n}\n";

/// The generated C file that the compilers are given.
pub const GENERATED_C_FILE: &'static str = "./build/output.atlas_c.c";

/// The executable path: `a.exe` on Windows, `a.out` elsewhere, in `output_dir`.
pub open spec fn target_path(output_dir: Seq<char>, on_windows: bool) -> Seq<char> {
    output_dir + (if on_windows { "/a.exe"@ } else { "/a.out"@ })
}

/// A compiler invocation: the program and its arguments.
#[derive(Debug)]
pub struct CompilerInvocation {
    pub program: String,
    pub args: Vec<String>,
}

/// The program that compiles with each compiler (the system one for TinyCC).
pub open spec fn compiler_program(c: SupportedCompiler) -> Seq<char> {
    match c {
        SupportedCompiler::TinyCC => "tcc"@,
        SupportedCompiler::GCC => "gcc"@,
        SupportedCompiler::MSVC => "cl"@,
        SupportedCompiler::Clang => "clang"@,
        SupportedCompiler::Intel => "icc"@,
        SupportedCompiler::NoCompiler => Seq::empty(),
    }
}

/// The arguments of the invocation: the generated C file, the target (`-o <target>`, or
/// `/Fe:<target>` for MSVC), and the optimisation flag in release builds (not for
/// TinyCC).
pub open spec fn compiler_args(c: SupportedCompiler, flag: CompilationFlag, output_dir: Seq<char>, on_windows: bool) -> Seq<Seq<char>> {
    let target = target_path(output_dir, on_windows);
    match c {
        SupportedCompiler::TinyCC => seq![GENERATED_C_FILE@, "-o"@, target],
        SupportedCompiler::MSVC => seq![GENERATED_C_FILE@, "/Fe:"@ + target]
            + (if flag == CompilationFlag::Release { seq!["/O2"@] } else { Seq::empty() }),
        _ => seq![GENERATED_C_FILE@, "-o"@, target]
            + (if flag == CompilationFlag::Release { seq!["-O2"@] } else { Seq::empty() }),
    }
}

/// How the generated C file is compiled with `compiler`, or `None` when no compiler is
/// wanted.
pub fn compiler_invocation(compiler: SupportedCompiler, flag: CompilationFlag, output_dir: &str, on_windows: bool)
    -> (r: Option<CompilerInvocation>)
    ensures
        match compiler {
            SupportedCompiler::NoCompiler => r is None,
            _ => r matches Some(inv) && inv.program@ == compiler_program(compiler)
                && crate::text::views(inv.args@) == compiler_args(compiler, flag, output_dir@, on_windows),
        },
{
    let program = match compiler {
        SupportedCompiler::TinyCC => "tcc",
        SupportedCompiler::GCC => "gcc",
        SupportedCompiler::MSVC => "cl",
        SupportedCompiler::Clang => "clang",
        SupportedCompiler::Intel => "icc",
        SupportedCompiler::NoCompiler => return None,
    };
    let mut target = String::from_str(output_dir);
    if on_windows {
        target.append("/a.exe");
    } else {
        target.append("/a.out");
    }
    let mut args: Vec<String> = Vec::new();
    args.push(String::from_str(GENERATED_C_FILE));
    match compiler {
        SupportedCompiler::MSVC => {
            let mut fe = String::from_str("/Fe:");
            fe.append(target.as_str());
            args.push(fe);
            if flag == CompilationFlag::Release {
                args.push(String::from_str("/O2"));
            }
        },
        _ => {
            args.push(String::from_str("-o"));
            args.push(target);
            match compiler {
                SupportedCompiler::TinyCC => {},
                _ => {
                    if flag == CompilationFlag::Release {
                        args.push(String::from_str("-O2"));
                    }
                },
            }
        },
    }
    proof {
        assert(crate::text::views(args@) =~= compiler_args(compiler, flag, output_dir@, on_windows));
    }
    Some(CompilerInvocation { program: String::from_str(program), args })
}

} // verus!
