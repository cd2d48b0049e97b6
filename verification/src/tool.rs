//! The proxied tools and what each of them asks of an invocation.

use vstd::prelude::*;
use vstd::string::*;
use crate::text::{lemma_texts_push, str_eq, texts};

verus! {

/// One of the LLVM tools that ship with the Rust toolchain.
#[derive(Clone, Copy, Debug, PartialEq, Eq, Structural)]
pub enum Tool {
    Ar,
    As,
    Cov,
    Lld,
    Nm,
    Objcopy,
    Objdump,
    Profdata,
    Readobj,
    Size,
    Strip,
}

/// What is done to a tool's captured standard output before it is relayed.
#[derive(Clone, Copy, Debug, PartialEq, Eq, Structural)]
pub enum Postprocess {
    /// The output is relayed as it is.
    Raw,
    /// Mangled Rust symbols are replaced by their readable form.
    Demangle,
    /// Section addresses are rewritten in hexadecimal.
    HexAddresses,
}

/// Exit code of a proxy that failed before or while starting the tool.
pub const EXIT_INTERNAL: i32 = 101;

/// Exit code of a forwarder whose tool is not installed.
pub const EXIT_TOOL_MISSING: i32 = 102;

/// Exit code reported when a proxied tool ended without one.
pub const EXIT_NO_CODE: i32 = 1;

impl Tool {
    /// The tool's short name as a character sequence.
    pub open spec fn spec_name(self) -> Seq<char> {
        match self {
            Tool::Ar => "ar"@,
            Tool::As => "as"@,
            Tool::Cov => "cov"@,
            Tool::Lld => "lld"@,
            Tool::Nm => "nm"@,
            Tool::Objcopy => "objcopy"@,
            Tool::Objdump => "objdump"@,
            Tool::Profdata => "profdata"@,
            Tool::Readobj => "readobj"@,
            Tool::Size => "size"@,
            Tool::Strip => "strip"@,
        }
    }

    /// The file name of the tool's executable, given the platform's
    /// executable suffix.
    pub open spec fn spec_exe(self, suffix: Seq<char>) -> Seq<char> {
        match self {
            Tool::Lld => "rust-lld"@ + suffix,
            _ => "llvm-"@ + self.spec_name() + suffix,
        }
    }

    /// Whether the tool works on a build product, so that the project has to
    /// be built first.
    pub open spec fn spec_needs_build(self) -> bool {
        match self {
            Tool::Ar | Tool::As | Tool::Cov | Tool::Lld | Tool::Profdata => false,
            Tool::Nm | Tool::Objcopy | Tool::Objdump | Tool::Readobj | Tool::Size | Tool::Strip => true,
        }
    }

    /// Whether the tool has to be told the architecture of its input.
    pub open spec fn spec_needs_arch(self) -> bool {
        self == Tool::Objdump
    }

    /// Whether the tool is run inside the product's directory on the
    /// product's bare file name.
    pub open spec fn spec_shortens_paths(self) -> bool {
        match self {
            Tool::Objdump | Tool::Nm | Tool::Readobj | Tool::Size => true,
            _ => false,
        }
    }

    /// The rewriting applied to the tool's standard output.
    pub open spec fn spec_postprocess(self) -> Postprocess {
        match self {
            Tool::Nm | Tool::Objdump | Tool::Readobj => Postprocess::Demangle,
            Tool::Size => Postprocess::HexAddresses,
            _ => Postprocess::Raw,
        }
    }

    #[must_use]
    pub fn name(self) -> (name: &'static str)
        ensures
            name@ == self.spec_name(),
    {
        match self {
            Self::Ar => "ar",
            Self::As => "as",
            Self::Cov => "cov",
            Self::Lld => "lld",
            Self::Nm => "nm",
            Self::Objcopy => "objcopy",
            Self::Objdump => "objdump",
            Self::Profdata => "profdata",
            Self::Readobj => "readobj",
            Self::Size => "size",
            Self::Strip => "strip",
        }
    }

    #[must_use]
    pub fn exe(self, suffix: &str) -> (file: String)
        ensures
            file@ == self.spec_exe(suffix@),
    {
        match self {
            Self::Lld => String::from_str("rust-lld").concat(suffix),
            _ => String::from_str("llvm-").concat(self.name()).concat(suffix),
        }
    }

    /// The path of the tool's executable, as the parts that make it up:
    /// those of `rustlib`, the directory in which the toolchain keeps its
    /// tools, and the executable's file name.
    pub fn path(self, rustlib: Vec<String>, suffix: &str) -> (parts: Vec<String>)
        ensures
            texts(parts@) == texts(rustlib@).push(self.spec_exe(suffix@)),
    {
        let mut parts = rustlib;
        let file = self.exe(suffix);
        proof {
            lemma_texts_push(parts@, file);
        }
        parts.push(file);
        parts
    }

    #[must_use]
    pub fn needs_build(self) -> (needed: bool)
        ensures
            needed == self.spec_needs_build(),
    {
        match self {
            Self::Ar | Self::As | Self::Cov | Self::Lld | Self::Profdata => false,
            Self::Nm | Self::Objcopy | Self::Objdump | Self::Readobj | Self::Size | Self::Strip => {
                true
            }
        }
    }

    #[must_use]
    pub fn needs_arch(self) -> (needed: bool)
        ensures
            needed == self.spec_needs_arch(),
    {
        match self {
            Self::Objdump => true,
            _ => false,
        }
    }

    #[must_use]
    pub fn shortens_paths(self) -> (shortens: bool)
        ensures
            shortens == self.spec_shortens_paths(),
    {
        match self {
            Self::Objdump | Self::Nm | Self::Readobj | Self::Size => true,
            _ => false,
        }
    }

    #[must_use]
    pub fn postprocess(self) -> (pass: Postprocess)
        ensures
            pass == self.spec_postprocess(),
    {
        match self {
            Self::Nm | Self::Objdump | Self::Readobj => Postprocess::Demangle,
            Self::Size => Postprocess::HexAddresses,
            _ => Postprocess::Raw,
        }
    }
}

/// A program of this family, by the way it is called.
#[derive(Clone, Copy, Debug, PartialEq, Eq, Structural)]
pub enum FrontEnd {
    /// `cargo-<tool>`: builds the project, then runs the tool on a product.
    Cargo(Tool),
    /// `rust-<tool>`: hands its arguments to the tool.
    Rust(Tool),
}

/// Every tool, in the order of their names.
pub open spec fn all_tools() -> Seq<Tool> {
    seq![
        Tool::Ar,
        Tool::As,
        Tool::Cov,
        Tool::Lld,
        Tool::Nm,
        Tool::Objcopy,
        Tool::Objdump,
        Tool::Profdata,
        Tool::Readobj,
        Tool::Size,
        Tool::Strip,
    ]
}

/// The program among those of `tools` that goes by the name `program`:
/// `cargo-` or `rust-`, then the name of the tool.
pub open spec fn front_end_among(program: Seq<char>, tools: Seq<Tool>) -> Option<FrontEnd>
    decreases tools.len(),
{
    if tools.len() == 0 {
        None
    } else if program == "cargo-"@ + tools[0].spec_name() {
        Some(FrontEnd::Cargo(tools[0]))
    } else if program == "rust-"@ + tools[0].spec_name() {
        Some(FrontEnd::Rust(tools[0]))
    } else {
        front_end_among(program, tools.drop_first())
    }
}

/// The program that goes by the name `program`.
pub fn front_end(program: &str) -> (found: Option<FrontEnd>)
    ensures
        found == front_end_among(program@, all_tools()),
{
    let tools = [
        Tool::Ar,
        Tool::As,
        Tool::Cov,
        Tool::Lld,
        Tool::Nm,
        Tool::Objcopy,
        Tool::Objdump,
        Tool::Profdata,
        Tool::Readobj,
        Tool::Size,
        Tool::Strip,
    ];
    assert(tools@ =~= all_tools());
    let mut i: usize = 0;
    assert(tools@.skip(0) =~= tools@);
    while i < 11
        invariant
            i <= 11,
            tools@ == all_tools(),
            front_end_among(program@, all_tools()) == front_end_among(
                program@,
                tools@.skip(i as int),
            ),
        decreases 11 - i,
    {
        let tool = tools[i];
        proof {
            assert(tools@.skip(i as int)[0] == tool);
            assert(tools@.skip(i as int).drop_first() =~= tools@.skip(i + 1));
        }
        if str_eq(program, String::from_str("cargo-").concat(tool.name()).as_str()) {
            return Some(FrontEnd::Cargo(tool));
        }
        if str_eq(program, String::from_str("rust-").concat(tool.name()).as_str()) {
            return Some(FrontEnd::Rust(tool));
        }
        i += 1;
    }
    assert(tools@.skip(11).len() == 0);
    None
}

} // verus!
