//! A compiler for a small line-oriented BASIC-like language.
//!
//! Source text is tokenized, parsed into statements, lowered to a flat
//! intermediate representation by a name-resolution pass, and finally
//! turned into textual x86-64 assembly. Each stage either succeeds and
//! hands a new immutable artifact downstream, or fails with a structured
//! error that aborts the pipeline.

pub mod assembly;
pub mod ast;
pub mod codegen;
pub mod errors;
pub mod ir;
pub mod laws;
pub mod location;
pub mod parser;
pub mod sem_analysis;
pub mod text;
pub mod token;
pub mod tokenizer;

use crate::assembly::spec_stringify;
use crate::codegen::{gen_asm, spec_generate};
use crate::errors::{CompileError, CompileErrorV, TokenizationErrorV};
use crate::parser::{parse, spec_parse};
use crate::sem_analysis::{sem_analysis, spec_analyze};
use crate::text::{str_chars, str_eq};
use crate::tokenizer::{spec_tokenize, tokenize};
use vstd::prelude::*;

verus! {

/// What compilation returns for a source text: the assembly program's
/// text, or the first error of the first failing stage.
pub open spec fn spec_compile(s: Seq<char>) -> Result<Seq<char>, CompileErrorV> {
    match spec_tokenize(s) {
        Err(p) => Err(CompileErrorV::Tokenization(TokenizationErrorV { opened_at: p })),
        Ok(ts) => match spec_parse(ts) {
            Err(e) => Err(CompileErrorV::Syntax(e)),
            Ok(stmts) => match spec_analyze(stmts) {
                Err(e) => Err(CompileErrorV::Semantic(e)),
                Ok(ir) => Ok(spec_stringify(spec_generate(ir))),
            },
        },
    }
}

/// Runs the whole pipeline on a source text: tokenize, parse, analyze,
/// generate, stringify.
pub fn compile(src: &str) -> (r: Result<String, CompileError>)
    requires
        src@.len() <= 0x0FFF_FFFF,
    ensures
        match spec_compile(src@) {
            Ok(text) => r matches Ok(s) && s@ == text,
            Err(e) => r matches Err(q) && q@ == e,
        },
{
    let tokens = match tokenize(src) {
        Ok(tokens) => tokens,
        Err(e) => {
            return Err(CompileError::Tokenization(e));
        },
    };
    let ast = match parse(tokens.as_slice()) {
        Ok(ast) => ast,
        Err(e) => {
            return Err(CompileError::Syntax(e));
        },
    };
    proof {
        crate::tokenizer::lemma_tokenize_count(src@);
        crate::laws::lemma_parse_count(crate::token::tokens_view(tokens@));
        crate::sem_analysis::lemma_analyze_wf(crate::ast::stmts_view(ast@));
    }
    let ir = match sem_analysis(ast.as_slice()) {
        Ok(ir) => ir,
        Err(e) => {
            return Err(CompileError::Semantic(e));
        },
    };
    match gen_asm(&ir) {
        Ok(a) => Ok(a.stringify()),
        Err(m) => {
            proof {
                assert(false);
            }
            Err(CompileError::Semantic(crate::errors::SemanticError::ArityMismatch {
                location: crate::location::Location {
                    start: crate::location::Point::new(0, 0),
                    end: crate::location::Point::new(0, 0),
                },
                found: 0,
            }))
        },
    }
}

/// Where the compiler reads its input from.
#[derive(Debug)]
pub struct InputInfo {
    pub src_path: String,
}

/// Where the compiler and the external assembler and linker write their
/// outputs.
#[derive(Debug)]
pub struct OutputInfo {
    pub ast_path: String,
    pub asm_path: String,
    pub obj_path: String,
    pub bin_path: String,
}

/// The input and output paths of one compilation.
#[derive(Debug)]
pub struct IOInfo {
    pub input: InputInfo,
    pub output: OutputInfo,
}

/// The index just after the last `/` of a path, or zero when it has none.
pub open spec fn last_slash_cut(s: Seq<char>) -> int
    decreases s.len(),
{
    if s.len() == 0 {
        0
    } else if s.last() == '/' {
        s.len() as int
    } else {
        last_slash_cut(s.drop_last())
    }
}

/// The index of the last `.` of a file name at a position past its first
/// character, or `-1` when it has none: a leading dot marks a hidden file,
/// not an extension.
pub open spec fn last_dot(f: Seq<char>) -> int
    decreases f.len(),
{
    if f.len() <= 1 {
        -1
    } else if f.last() == '.' {
        f.len() - 1
    } else {
        last_dot(f.drop_last())
    }
}

/// The length of a path up to and excluding its final component's
/// extension: everything the output paths keep.
pub open spec fn output_base_cut(s: Seq<char>) -> int {
    let cut = last_slash_cut(s);
    let file = s.skip(cut);
    if last_dot(file) >= 0 {
        cut + last_dot(file)
    } else {
        cut + file.len()
    }
}

/// The path prefix shared by all output paths: the input path with its
/// extension removed.
pub open spec fn output_base(s: Seq<char>) -> Seq<char> {
    s.take(output_base_cut(s))
}

/// Whether a path holds no file name at all: it is empty or all slashes.
pub open spec fn path_has_no_dir(s: Seq<char>) -> bool {
    forall|i: int| 0 <= i < s.len() ==> s[i] == '/'
}

/// Whether a path's final component cannot name a source file: it is
/// empty, `.` or `..`.
pub open spec fn path_has_no_name(s: Seq<char>) -> bool {
    let f = s.skip(last_slash_cut(s));
    ||| f.len() == 0
    ||| (f.len() == 1 && f[0] == '.')
    ||| (f.len() == 2 && f[0] == '.' && f[1] == '.')
}

/// Derives the output paths of a compilation from the source path: the
/// extension of its final component is replaced by `.ast.json`, `.s`,
/// `.o` and `.bin` in turn. Trailing-slash paths and the components `.`
/// and `..` are rejected rather than normalized.
#[verifier::loop_isolation(false)]
pub fn get_io_info(filename: &str) -> (r: Result<IOInfo, String>)
    ensures
        path_has_no_dir(filename@) ==> (r matches Err(e) && e@ == "Failed to get directory info"@),
        !path_has_no_dir(filename@) && path_has_no_name(filename@) ==> (r matches Err(e) && e@
            == "Failed to get name of the source file"@),
        !path_has_no_dir(filename@) && !path_has_no_name(filename@) ==> (r matches Ok(io) && {
            &&& io.input.src_path@ == filename@
            &&& io.output.ast_path@ == output_base(filename@) + ".ast.json"@
            &&& io.output.asm_path@ == output_base(filename@) + ".s"@
            &&& io.output.obj_path@ == output_base(filename@) + ".o"@
            &&& io.output.bin_path@ == output_base(filename@) + ".bin"@
        }),
{
    let chars = str_chars(filename);
    let n = chars.len();

    let mut all_slashes = true;
    let mut i: usize = 0;
    while i < n
        invariant
            i <= n,
            all_slashes == (forall|j: int| 0 <= j < i ==> chars@[j] == '/'),
        decreases n - i,
    {
        if chars[i] != '/' {
            all_slashes = false;
        }
        i = i + 1;
    }
    if all_slashes {
        return Err(String::from_str("Failed to get directory info"));
    }

    let mut cut: usize = 0;
    let mut j: usize = 0;
    while j < n
        invariant
            j <= n,
            cut as int == last_slash_cut(filename@.take(j as int)),
            cut <= j,
        decreases n - j,
    {
        proof {
            assert(filename@.take(j as int + 1).drop_last() =~= filename@.take(j as int));
        }
        if chars[j] == '/' {
            cut = j + 1;
        }
        j = j + 1;
    }
    proof {
        assert(filename@.take(n as int) =~= filename@);
    }

    let file_len = n - cut;
    if file_len == 0 || (file_len == 1 && chars[cut] == '.') || (file_len == 2 && chars[cut]
        == '.' && chars[cut + 1] == '.') {
        return Err(String::from_str("Failed to get name of the source file"));
    }

    let ghost file = filename@.skip(cut as int);
    let mut dot: usize = 0;
    let mut has_dot = false;
    let mut k: usize = 0;
    while k < file_len
        invariant
            k <= file_len,
            has_dot == (last_dot(file.take(k as int)) >= 0),
            has_dot ==> dot as int == last_dot(file.take(k as int)),
            !has_dot ==> dot == 0,
            dot < file_len,
        decreases file_len - k,
    {
        proof {
            assert(file.take(k as int + 1).drop_last() =~= file.take(k as int));
            assert(file[k as int] == filename@[cut + k as int]);
        }
        if k >= 1 && chars[cut + k] == '.' {
            dot = k;
            has_dot = true;
        }
        k = k + 1;
    }
    proof {
        assert(file.take(file_len as int) =~= file);
    }

    let base_len = if has_dot {
        cut + dot
    } else {
        n
    };

    let mut base = String::new();
    let mut b: usize = 0;
    while b < base_len
        invariant
            b <= base_len,
            base_len <= n,
            base@ =~= filename@.take(base_len as int).take(b as int),
        decreases base_len - b,
    {
        crate::text::push_char(&mut base, chars[b]);
        proof {
            assert(filename@.take(base_len as int).take(b as int).push(chars@[b as int])
                =~= filename@.take(base_len as int).take(b as int + 1));
        }
        b = b + 1;
    }
    proof {
        assert(base@ =~= output_base(filename@));
    }

    let mut ast_path = base.clone();
    ast_path.append(".ast.json");
    let mut asm_path = base.clone();
    asm_path.append(".s");
    let mut obj_path = base.clone();
    obj_path.append(".o");
    let mut bin_path = base.clone();
    bin_path.append(".bin");

    Ok(
        IOInfo {
            input: InputInfo { src_path: String::from_str(filename) },
            output: OutputInfo { ast_path, asm_path, obj_path, bin_path },
        },
    )
}

/// A build target triple.
#[derive(Debug, Clone, Copy, PartialEq, Eq, Structural)]
pub enum Target {
    X64Linux,
    X64Darwin,
    Dotnet,
}

/// A target name that names no known target.
#[derive(Debug)]
pub struct InvalidTargetError;

/// The name of a target, as given on the command line.
pub open spec fn target_name(t: Target) -> Seq<char> {
    match t {
        Target::X64Linux => "x86_64-linux"@,
        Target::X64Darwin => "x86_64-darwin"@,
        Target::Dotnet => "dotnet"@,
    }
}

impl Target {
    /// Parses a target name: only the two native targets can be asked
    /// for by name.
    pub fn parse_name(s: &str) -> (r: Result<Target, InvalidTargetError>)
        ensures
            s@ == "x86_64-linux"@ ==> (r matches Ok(t) && t == Target::X64Linux),
            s@ == "x86_64-darwin"@ ==> (r matches Ok(t) && t == Target::X64Darwin),
            s@ != "x86_64-linux"@ && s@ != "x86_64-darwin"@ ==> r is Err,
    {
        proof {
            broadcast use vstd::string::group_string_axioms;

            reveal_strlit("x86_64-linux");
            reveal_strlit("x86_64-darwin");
            assert("x86_64-linux"@.len() != "x86_64-darwin"@.len());
        }
        if str_eq(s, "x86_64-linux") {
            Ok(Target::X64Linux)
        } else if str_eq(s, "x86_64-darwin") {
            Ok(Target::X64Darwin)
        } else {
            Err(InvalidTargetError)
        }
    }

    /// The target's name, the inverse of [`Target::parse_name`] for the
    /// native targets.
    pub fn name(&self) -> (r: String)
        ensures
            r@ == target_name(*self),
    {
        match self {
            Target::X64Linux => String::from_str("x86_64-linux"),
            Target::X64Darwin => String::from_str("x86_64-darwin"),
            Target::Dotnet => String::from_str("dotnet"),
        }
    }
}

impl core::str::FromStr for Target {
    type Err = InvalidTargetError;

    fn from_str(s: &str) -> Result<Target, InvalidTargetError> {
        Target::parse_name(s)
    }
}

/// The command-line options of one compiler run; parsing them from the
/// real command line is the surrounding program's concern.
pub struct Options {
    pub input: String,
    pub verbose: bool,
    pub target: Target,
}

} // verus!
