//! Where the toolchain keeps the tools that it ships.

use vstd::prelude::*;
use vstd::string::*;
use vstd::utf8::{decode_utf8, valid_utf8};
use crate::text::{texts, trim, trimmed, utf8_text};

verus! {

/// Why the toolchain's answer cannot be used.
#[derive(Clone, Copy, Debug, PartialEq, Eq, Structural)]
pub enum ToolchainError {
    /// The answer is not text.
    NotUtf8,
}

/// Where the toolchain is installed, from what the compiler printed when
/// it was asked: the text without the white space around it.
pub fn sysroot(stdout: &[u8]) -> (result: Result<String, ToolchainError>)
    ensures
        match result {
            Ok(path) => valid_utf8(stdout@) && path@ == trimmed(decode_utf8(stdout@)),
            Err(_) => !valid_utf8(stdout@),
        },
{
    match utf8_text(stdout) {
        Some(text) => {
            proof {
                vstd::utf8::encode_utf8_decode_utf8(text@);
            }
            // the compiler ends its answer with a line break
            Ok(trim(text))
        },
        None => Err(ToolchainError::NotUtf8),
    }
}

/// The parts of the path of the directory in which a toolchain installed
/// at `sysroot` keeps the tools for `host`.
pub open spec fn rustlib_parts(sysroot: Seq<char>, host: Seq<char>) -> Seq<Seq<char>> {
    seq![sysroot, "lib"@, "rustlib"@, host, "bin"@]
}

/// The directory in which a toolchain installed at `sysroot` keeps the
/// tools for `host`, as the parts that make up its path: the first is
/// where the path begins, each further one is a step down.
pub fn rustlib(sysroot: &str, host: &str) -> (parts: Vec<String>)
    ensures
        texts(parts@) == rustlib_parts(sysroot@, host@),
{
    let mut parts: Vec<String> = Vec::new();
    parts.push(sysroot.to_owned());
    parts.push(String::from_str("lib"));
    parts.push(String::from_str("rustlib"));
    parts.push(host.to_owned());
    parts.push(String::from_str("bin"));
    assert(texts(parts@) =~= rustlib_parts(sysroot@, host@));
    parts
}

} // verus!
