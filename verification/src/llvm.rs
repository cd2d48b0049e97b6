//! The names under which LLVM knows the architectures of Rust targets.

use vstd::prelude::*;
use vstd::string::*;
use crate::text::{starts_with, str_eq};

verus! {

/// The byte order of a target.
#[derive(Clone, Copy, Debug, PartialEq, Eq, Structural)]
pub enum Endian {
    Little,
    Big,
}

/// The byte order that the compiler reports under `name`, if it is one.
pub open spec fn endian_of_name(name: Seq<char>) -> Option<Endian> {
    if name == "little"@ {
        Some(Endian::Little)
    } else if name == "big"@ {
        Some(Endian::Big)
    } else {
        None
    }
}

impl Endian {
    /// Reads a byte order as the compiler spells it.
    pub fn from_name(name: &str) -> (endian: Option<Endian>)
        ensures
            endian == endian_of_name(name@),
    {
        if str_eq(name, "little") {
            Some(Endian::Little)
        } else if str_eq(name, "big") {
            Some(Endian::Big)
        } else {
            None
        }
    }
}

/// What the compiler reports of a target, as far as the tools are told of
/// it.
#[derive(Debug, PartialEq, Eq)]
pub struct Cfg {
    /// The architecture, in the compiler's spelling.
    pub target_arch: String,
    pub target_endian: Endian,
}

/// LLVM's name for the architecture that the compiler calls `arch`, with
/// the byte order `endian`. Names that LLVM shares with the compiler are
/// left as they are.
pub open spec fn llvm_arch(arch: Seq<char>, endian: Endian) -> Seq<char> {
    if arch == "aarch64"@ && endian is Big {
        "aarch64_be"@
    } else if arch == "arm"@ && endian is Big {
        "armeb"@
    } else if arch == "mips"@ && endian is Little {
        "mipsel"@
    } else if arch == "mips64"@ && endian is Little {
        "mips64el"@
    } else if arch == "powerpc64"@ && endian is Little {
        "ppc64le"@
    } else if arch == "sparc"@ && endian is Little {
        "sparcel"@
    } else if arch == "powerpc"@ {
        "ppc32"@
    } else if arch == "powerpc64"@ {
        "ppc64"@
    } else if arch == "sparc64"@ {
        "sparcv9"@
    } else if arch == "s390x"@ {
        "systemz"@
    } else if arch == "x86_64"@ {
        "x86-64"@
    } else {
        arch
    }
}

/// Whether the target's name marks it as a Thumb target. What the
/// compiler reports of such a target does not tell it from an Arm target.
pub open spec fn is_thumb(target: Seq<char>) -> bool {
    "thumb"@.is_prefix_of(target)
}

/// LLVM's name for the architecture of `target`.
pub open spec fn llvm_arch_name(arch: Seq<char>, endian: Endian, target: Seq<char>) -> Seq<char> {
    if is_thumb(target) {
        if endian is Big {
            "thumbeb"@
        } else {
            "thumb"@
        }
    } else {
        llvm_arch(arch, endian)
    }
}

/// LLVM's name for the architecture of `target`, of which the compiler
/// reports `cfg`.
pub fn arch_name<'a>(cfg: &'a Cfg, target: &'a str) -> (name: &'a str)
    ensures
        name@ == llvm_arch_name(cfg.target_arch@, cfg.target_endian, target@),
{
    let arch = cfg.target_arch.as_str();
    let big = match cfg.target_endian {
        Endian::Big => true,
        Endian::Little => false,
    };
    if starts_with(target, "thumb") {
        if big {
            "thumbeb"
        } else {
            "thumb"
        }
    } else if str_eq(arch, "aarch64") && big {
        "aarch64_be"
    } else if str_eq(arch, "arm") && big {
        "armeb"
    } else if str_eq(arch, "mips") && !big {
        "mipsel"
    } else if str_eq(arch, "mips64") && !big {
        "mips64el"
    } else if str_eq(arch, "powerpc64") && !big {
        "ppc64le"
    } else if str_eq(arch, "sparc") && !big {
        "sparcel"
    } else if str_eq(arch, "powerpc") {
        "ppc32"
    } else if str_eq(arch, "powerpc64") {
        "ppc64"
    } else if str_eq(arch, "sparc64") {
        "sparcv9"
    } else if str_eq(arch, "s390x") {
        "systemz"
    } else if str_eq(arch, "x86_64") {
        "x86-64"
    } else {
        arch
    }
}

/// Makes the characters of every name in the table known.
proof fn reveal_names()
    ensures
        "aarch64"@ == seq!['a', 'a', 'r', 'c', 'h', '6', '4'],
        "aarch64_be"@ == seq!['a', 'a', 'r', 'c', 'h', '6', '4', '_', 'b', 'e'],
        "arm"@ == seq!['a', 'r', 'm'],
        "armeb"@ == seq!['a', 'r', 'm', 'e', 'b'],
        "mips"@ == seq!['m', 'i', 'p', 's'],
        "mipsel"@ == seq!['m', 'i', 'p', 's', 'e', 'l'],
        "mips64"@ == seq!['m', 'i', 'p', 's', '6', '4'],
        "mips64el"@ == seq!['m', 'i', 'p', 's', '6', '4', 'e', 'l'],
        "powerpc64"@ == seq!['p', 'o', 'w', 'e', 'r', 'p', 'c', '6', '4'],
        "ppc64le"@ == seq!['p', 'p', 'c', '6', '4', 'l', 'e'],
        "sparc"@ == seq!['s', 'p', 'a', 'r', 'c'],
        "sparcel"@ == seq!['s', 'p', 'a', 'r', 'c', 'e', 'l'],
        "powerpc"@ == seq!['p', 'o', 'w', 'e', 'r', 'p', 'c'],
        "ppc32"@ == seq!['p', 'p', 'c', '3', '2'],
        "ppc64"@ == seq!['p', 'p', 'c', '6', '4'],
        "sparc64"@ == seq!['s', 'p', 'a', 'r', 'c', '6', '4'],
        "sparcv9"@ == seq!['s', 'p', 'a', 'r', 'c', 'v', '9'],
        "s390x"@ == seq!['s', '3', '9', '0', 'x'],
        "systemz"@ == seq!['s', 'y', 's', 't', 'e', 'm', 'z'],
        "x86_64"@ == seq!['x', '8', '6', '_', '6', '4'],
        "x86-64"@ == seq!['x', '8', '6', '-', '6', '4'],
{
    reveal_strlit("aarch64");
    reveal_strlit("aarch64_be");
    reveal_strlit("arm");
    reveal_strlit("armeb");
    reveal_strlit("mips");
    reveal_strlit("mipsel");
    reveal_strlit("mips64");
    reveal_strlit("mips64el");
    reveal_strlit("powerpc64");
    reveal_strlit("ppc64le");
    reveal_strlit("sparc");
    reveal_strlit("sparcel");
    reveal_strlit("powerpc");
    reveal_strlit("ppc32");
    reveal_strlit("ppc64");
    reveal_strlit("sparc64");
    reveal_strlit("sparcv9");
    reveal_strlit("s390x");
    reveal_strlit("systemz");
    reveal_strlit("x86_64");
    reveal_strlit("x86-64");
    assert("aarch64"@ =~= seq!['a', 'a', 'r', 'c', 'h', '6', '4']);
    assert("aarch64_be"@ =~= seq!['a', 'a', 'r', 'c', 'h', '6', '4', '_', 'b', 'e']);
    assert("arm"@ =~= seq!['a', 'r', 'm']);
    assert("armeb"@ =~= seq!['a', 'r', 'm', 'e', 'b']);
    assert("mips"@ =~= seq!['m', 'i', 'p', 's']);
    assert("mipsel"@ =~= seq!['m', 'i', 'p', 's', 'e', 'l']);
    assert("mips64"@ =~= seq!['m', 'i', 'p', 's', '6', '4']);
    assert("mips64el"@ =~= seq!['m', 'i', 'p', 's', '6', '4', 'e', 'l']);
    assert("powerpc64"@ =~= seq!['p', 'o', 'w', 'e', 'r', 'p', 'c', '6', '4']);
    assert("ppc64le"@ =~= seq!['p', 'p', 'c', '6', '4', 'l', 'e']);
    assert("sparc"@ =~= seq!['s', 'p', 'a', 'r', 'c']);
    assert("sparcel"@ =~= seq!['s', 'p', 'a', 'r', 'c', 'e', 'l']);
    assert("powerpc"@ =~= seq!['p', 'o', 'w', 'e', 'r', 'p', 'c']);
    assert("ppc32"@ =~= seq!['p', 'p', 'c', '3', '2']);
    assert("ppc64"@ =~= seq!['p', 'p', 'c', '6', '4']);
    assert("sparc64"@ =~= seq!['s', 'p', 'a', 'r', 'c', '6', '4']);
    assert("sparcv9"@ =~= seq!['s', 'p', 'a', 'r', 'c', 'v', '9']);
    assert("s390x"@ =~= seq!['s', '3', '9', '0', 'x']);
    assert("systemz"@ =~= seq!['s', 'y', 's', 't', 'e', 'm', 'z']);
    assert("x86_64"@ =~= seq!['x', '8', '6', '_', '6', '4']);
    assert("x86-64"@ =~= seq!['x', '8', '6', '-', '6', '4']);
}

/// The table maps the compiler's spelling to LLVM's and never back: a
/// name that it has changed is changed no further, whatever the byte
/// order, and mapping a second time with the same byte order changes
/// nothing in any case.
pub proof fn lemma_llvm_arch_idempotent(arch: Seq<char>, endian: Endian, again: Endian)
    ensures
        llvm_arch(llvm_arch(arch, endian), endian) == llvm_arch(arch, endian),
        llvm_arch(arch, endian) != arch ==> llvm_arch(llvm_arch(arch, endian), again) == llvm_arch(
            arch,
            endian,
        ),
{
    reveal_names();
}

/// Naming the architecture of a target a second time, from the name that
/// the first time gave, gives that name again.
pub proof fn lemma_arch_name_idempotent(arch: Seq<char>, endian: Endian, target: Seq<char>)
    ensures
        llvm_arch_name(llvm_arch_name(arch, endian, target), endian, target) == llvm_arch_name(
            arch,
            endian,
            target,
        ),
{
    lemma_llvm_arch_idempotent(arch, endian, endian);
}

} // verus!
