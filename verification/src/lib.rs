//! A compiler for the Skye language: its syntax tree, constant folding, substitution, and the
//! C back end's output buffers, the choice of a package's files, with the compiler's
//! configuration and base imports.

use vstd::prelude::*;

use crate::ast::{ImportType, Statement};
use crate::tokens::{Token, TokenType};
use vstd::string::StringExecFns;

pub mod tokens;
pub mod list;
pub mod ast;
pub mod diagnostics;
pub mod codegen;
pub mod constant_folder;
pub mod ir;
pub mod import_processor;
pub mod irgen;
pub mod package;

verus! {

/// How much run-time checking the generated program does.
#[derive(Clone, Copy, Debug, PartialEq, Eq, Structural)]
pub enum Checks {
    Debug,
    Release,
    ReleaseUnsafe,
}

/// The operating system that the program is built for; `Current` is the one the compiler runs on.
#[derive(Clone, Copy, Debug, PartialEq, Eq, Structural)]
pub enum TargetOS {
    Linux,
    MacOS,
    Windows,
    Unknown,
    Current,
}

/// The target that an operating system name (as Rust's `std::env::consts::OS` gives it) stands for.
pub open spec fn os_named(name: Seq<char>) -> TargetOS {
    if name == "linux"@ {
        TargetOS::Linux
    } else if name == "windows"@ {
        TargetOS::Windows
    } else if name == "macos"@ {
        TargetOS::MacOS
    } else {
        TargetOS::Unknown
    }
}

impl TargetOS {
    pub fn from_os_name(name: &str) -> (res: TargetOS)
        ensures
            res == os_named(name@),
    {
        if codegen::str_equal(name, "linux") {
            TargetOS::Linux
        } else if codegen::str_equal(name, "windows") {
            TargetOS::Windows
        } else if codegen::str_equal(name, "macos") {
            TargetOS::MacOS
        } else {
            TargetOS::Unknown
        }
    }

    /// Whether an executable built for this target has the extension `exe`: for Windows, or for
    /// the target `Current` where the compiler runs on Windows (`host`).
    pub open spec fn builds_exe(self, host: TargetOS) -> bool {
        self == TargetOS::Windows || (self == TargetOS::Current && host == TargetOS::Windows)
    }

    /// The file name of the executable called `name` when built for this target, the compiler
    /// running on `host`: `name` with the extension `exe` where the target wants one, else
    /// `name` itself.
    pub fn get_filename(self, name: &str, host: TargetOS) -> (res: String)
        ensures
            !self.builds_exe(host) ==> res@ == name@,
            self.builds_exe(host) && import_processor::simple_name(name@) ==> res@ == name@ + ".exe"@,
            self.builds_exe(host) && import_processor::plain_path(name@) ==> res@
                == import_processor::with_extension_text(name@, "exe"@),
    {
        proof {
            reveal_strlit("exe");
            reveal_strlit(".exe");
            assert(seq!['.'] + "exe"@ == ".exe"@);
        }
        if self == TargetOS::Windows || (self == TargetOS::Current && host == TargetOS::Windows) {
            import_processor::path_with_extension(name, "exe")
        } else {
            String::from_str(name)
        }
    }
}

/// What the compiler is asked to do, and where its files are.
pub struct CompilerConfig {
    pub skye_path: String,
    pub skyec: String,
    pub no_builtins: bool,
    pub no_panic: bool,
    pub primitives: String,
    pub checks: Checks,
    pub ptr_size: u8,
    pub target_os: TargetOS,
}

impl CompilerConfig {
    /// A configuration for debug checks. A pointer size of 0 stands for the size of a pointer on
    /// the machine the compiler runs on (`host_ptr_size`), and the target `Current` for that
    /// machine's operating system (`host_os`, an actual system, as `from_os_name` gives it).
    pub fn new(
        skyec: String,
        skye_path: String,
        primitives: String,
        no_builtins: bool,
        no_panic: bool,
        ptr_size: u8,
        target_os: TargetOS,
        host_ptr_size: u8,
        host_os: TargetOS,
    ) -> (res: Self)
        requires
            host_os != TargetOS::Current,
        ensures
            res.skyec == skyec,
            res.skye_path == skye_path,
            res.primitives == primitives,
            res.no_builtins == no_builtins,
            res.no_panic == no_panic,
            res.ptr_size == (if ptr_size == 0 { host_ptr_size } else { ptr_size }),
            res.target_os == (if target_os == TargetOS::Current { host_os } else { target_os }),
            res.target_os != TargetOS::Current,
            res.checks == Checks::Debug,
    {
        CompilerConfig {
            skye_path,
            skyec,
            primitives,
            no_builtins,
            no_panic,
            ptr_size: if ptr_size == 0 { host_ptr_size } else { ptr_size },
            target_os: if target_os == TargetOS::Current { host_os } else { target_os },
            checks: Checks::Debug,
        }
    }
}

/// The generated C code and the libraries it links against.
pub struct CompilationResult {
    pub code: String,
    pub extern_libs: Vec<String>,
}

/// The paths that the compiler imports before a program's own statements, in order.
pub open spec fn base_import_paths(no_builtins: bool, no_panic: bool, primitives: Seq<char>) -> Seq<Seq<char>> {
    if no_builtins {
        seq!["core/core"@]
    } else if no_panic {
        seq!["core/core"@, primitives, "core/builtins"@]
    } else {
        seq!["core/core"@, primitives, "core/builtins"@, "core/panic"@]
    }
}

/// `s` imports `path` as the compiler's base imports do: a plain import whose path token is an
/// identifier at the start of the program's source.
pub open spec fn is_base_import(s: Statement, source: Seq<char>, filename: Seq<char>, path: Seq<char>) -> bool {
    match s {
        Statement::Import { path: tok, type_, is_include } => {
            &&& tok.source@ == source
            &&& tok.filename@ == filename
            &&& tok.type_ == TokenType::Identifier
            &&& tok.lexeme@ == path
            &&& tok.pos == 0 && tok.end == 1 && tok.line == 0
            &&& type_ == ImportType::Default
            &&& !is_include
        },
        _ => false,
    }
}

fn base_import(source: &String, filename: &String, path: String) -> (res: Statement)
    ensures
        is_base_import(res, source@, filename@, path@),
{
    Statement::Import {
        path: Token::new(source.clone(), filename.clone(), TokenType::Identifier, path, 0, 1, 0),
        type_: ImportType::Default,
        is_include: false,
    }
}

/// Puts the imports of the core library, and unless they are switched off of the primitives,
/// the builtins and the panic handler, before the program's statements.
pub fn prepare_base_imports(
    statements: &mut Vec<Statement>,
    source: &String,
    filename: String,
    compiler_conf: &CompilerConfig,
)
    ensures
        ({
            let paths = base_import_paths(compiler_conf.no_builtins, compiler_conf.no_panic, compiler_conf.primitives@);
            &&& final(statements)@.len() == old(statements)@.len() + paths.len()
            &&& forall|i: int|
                0 <= i < paths.len() ==> is_base_import(#[trigger] final(statements)@[i], source@, filename@, paths[i])
            &&& final(statements)@.subrange(paths.len() as int, final(statements)@.len() as int) == old(statements)@
        }),
{
    let ghost old_statements = statements@;
    statements.insert(0, base_import(source, &filename, String::from_str("core/core")));
    if compiler_conf.no_builtins {
        assert(statements@.subrange(1, statements@.len() as int) =~= old_statements);
        return;
    }
    statements.insert(1, base_import(source, &filename, compiler_conf.primitives.clone()));
    statements.insert(2, base_import(source, &filename, String::from_str("core/builtins")));
    if !compiler_conf.no_panic {
        statements.insert(3, base_import(source, &filename, String::from_str("core/panic")));
        assert(statements@.subrange(4, statements@.len() as int) =~= old_statements);
    } else {
        assert(statements@.subrange(3, statements@.len() as int) =~= old_statements);
    }
}

} // verus!
