use cargo_binutils::rustc::rustlib;
use cargo_binutils::tool::{
    front_end, FrontEnd, Postprocess, EXIT_INTERNAL, EXIT_NO_CODE, EXIT_TOOL_MISSING,
};
use cargo_binutils::Tool;

const ALL: [Tool; 11] = [
    Tool::Ar,
    Tool::As,
    Tool::Cov,
    Tool::Lld,
    Tool::Nm,
    Tool::Objcopy,
    Tool::Objdump,
    Tool::Profdata,
    Tool::Readobj,
    Tool::Size,
    Tool::Strip,
];

#[test]
fn tool_names() {
    let names: Vec<&str> = ALL.iter().map(|tool| tool.name()).collect();
    assert_eq!(
        names,
        vec![
            "ar", "as", "cov", "lld", "nm", "objcopy", "objdump", "profdata", "readobj", "size",
            "strip"
        ]
    );
}

#[test]
fn tool_executables_carry_the_suffix() {
    assert_eq!(Tool::Objdump.exe(""), "llvm-objdump");
    assert_eq!(Tool::Nm.exe(".exe"), "llvm-nm.exe");
    assert_eq!(Tool::Lld.exe(""), "rust-lld");
    assert_eq!(Tool::Lld.exe(".exe"), "rust-lld.exe");
}

#[test]
fn tools_that_work_on_a_product_need_a_build() {
    let needy: Vec<Tool> = ALL.iter().copied().filter(|tool| tool.needs_build()).collect();
    assert_eq!(
        needy,
        vec![Tool::Nm, Tool::Objcopy, Tool::Objdump, Tool::Readobj, Tool::Size, Tool::Strip]
    );
}

#[test]
fn only_the_disassembler_is_told_the_architecture() {
    let told: Vec<Tool> = ALL.iter().copied().filter(|tool| tool.needs_arch()).collect();
    assert_eq!(told, vec![Tool::Objdump]);
}

#[test]
fn tools_that_print_paths_shorten_them() {
    let short: Vec<Tool> = ALL.iter().copied().filter(|tool| tool.shortens_paths()).collect();
    assert_eq!(short, vec![Tool::Nm, Tool::Objdump, Tool::Readobj, Tool::Size]);
}

#[test]
fn tool_output_passes() {
    assert_eq!(Tool::Nm.postprocess(), Postprocess::Demangle);
    assert_eq!(Tool::Objdump.postprocess(), Postprocess::Demangle);
    assert_eq!(Tool::Readobj.postprocess(), Postprocess::Demangle);
    assert_eq!(Tool::Size.postprocess(), Postprocess::HexAddresses);
    for tool in [Tool::Ar, Tool::As, Tool::Cov, Tool::Lld, Tool::Objcopy, Tool::Profdata, Tool::Strip] {
        assert_eq!(tool.postprocess(), Postprocess::Raw);
    }
}

#[test]
fn rustlib_lies_below_the_sysroot() {
    assert_eq!(
        rustlib("/home/user/.rustup/toolchains/stable", "x86_64-unknown-linux-gnu"),
        vec![
            "/home/user/.rustup/toolchains/stable",
            "lib",
            "rustlib",
            "x86_64-unknown-linux-gnu",
            "bin"
        ]
    );
}

#[test]
fn tool_path_is_the_executable_in_rustlib() {
    let dir = rustlib("/sysroot", "aarch64-apple-darwin");
    assert_eq!(
        Tool::Size.path(dir, ""),
        vec!["/sysroot", "lib", "rustlib", "aarch64-apple-darwin", "bin", "llvm-size"]
    );
    assert_eq!(Tool::Lld.path(vec!["bin".to_string()], ".exe"), vec!["bin", "rust-lld.exe"]);
}

#[test]
fn exit_codes_are_distinct() {
    assert_eq!(EXIT_INTERNAL, 101);
    assert_eq!(EXIT_TOOL_MISSING, 102);
    assert_eq!(EXIT_NO_CODE, 1);
}

#[test]
fn programs_are_known_by_their_names() {
    assert_eq!(front_end("cargo-nm"), Some(FrontEnd::Cargo(Tool::Nm)));
    assert_eq!(front_end("cargo-objdump"), Some(FrontEnd::Cargo(Tool::Objdump)));
    assert_eq!(front_end("cargo-profdata"), Some(FrontEnd::Cargo(Tool::Profdata)));
    assert_eq!(front_end("rust-ar"), Some(FrontEnd::Rust(Tool::Ar)));
    assert_eq!(front_end("rust-lld"), Some(FrontEnd::Rust(Tool::Lld)));
    assert_eq!(front_end("rust-nm"), Some(FrontEnd::Rust(Tool::Nm)));
    for tool in ALL {
        assert_eq!(front_end(&format!("cargo-{}", tool.name())), Some(FrontEnd::Cargo(tool)));
        assert_eq!(front_end(&format!("rust-{}", tool.name())), Some(FrontEnd::Rust(tool)));
    }
}

#[test]
fn other_names_are_no_programs() {
    for name in ["", "nm", "cargo-", "rust-", "cargo-nmx", "xcargo-nm", "llvm-nm", "cargo_nm", "Cargo-nm"] {
        assert_eq!(front_end(name), None, "{:?}", name);
    }
}
