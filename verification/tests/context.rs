use cargo_binutils::context::{
    flag_target, host_needed, names_host, product_segment, product_target, resolve_target,
    segment_target, Context, ResolutionError,
};
use cargo_binutils::llvm::{Cfg, Endian};
use cargo_binutils::product::{BuildProduct, ProductKind};

fn binary_at(path: &str) -> BuildProduct {
    BuildProduct {
        package: "a".to_string(),
        kind: ProductKind::Binary,
        name: "foo".to_string(),
        executable: Some(path.to_string()),
        files: vec![path.to_string()],
    }
}

#[test]
fn a_product_below_a_target_directory_was_built_for_that_target() {
    let product = binary_at("/home/user/project/target/thumbv7em-none-eabihf/release/foo");
    let target = product_target(&product, "/home/user/project/target", "x86_64-unknown-linux-gnu");
    assert_eq!(target, Ok("thumbv7em-none-eabihf".to_string()));
    let context = Context::from_query("thumbv7em-none-eabihf", "arm", "little").unwrap();
    assert_eq!(context.arch_args(), vec!["--triple", "thumbv7em-none-eabihf"]);
}

#[test]
fn a_product_below_a_profile_directory_was_built_for_the_host() {
    let product = binary_at("/home/user/project/target/debug/foo");
    let target = product_target(&product, "/home/user/project/target", "x86_64-unknown-linux-gnu");
    assert_eq!(target, Ok("x86_64-unknown-linux-gnu".to_string()));
    let product = binary_at("/home/user/project/target/release/examples/foo");
    let target = product_target(&product, "/home/user/project/target/", "aarch64-apple-darwin");
    assert_eq!(target, Ok("aarch64-apple-darwin".to_string()));
}

#[test]
fn profile_directories_stand_for_the_host() {
    assert_eq!(segment_target("debug", "host"), "host");
    assert_eq!(segment_target("release", "host"), "host");
    assert_eq!(segment_target("Debug", "host"), "Debug");
    assert_eq!(segment_target("releases", "host"), "releases");
    assert_eq!(segment_target("riscv32imac-unknown-none-elf", "host"), "riscv32imac-unknown-none-elf");
}

#[test]
fn a_library_is_told_by_its_first_file() {
    let product = BuildProduct {
        package: "a".to_string(),
        kind: ProductKind::Library,
        name: "foo".to_string(),
        executable: None,
        files: vec![
            "/ws/target/wasm32-unknown-unknown/debug/libfoo.rlib".to_string(),
            "/ws/target/debug/libfoo.rmeta".to_string(),
        ],
    };
    assert_eq!(product.canonical_file(), Some("/ws/target/wasm32-unknown-unknown/debug/libfoo.rlib"));
    assert_eq!(product_target(&product, "/ws/target", "host"), Ok("wasm32-unknown-unknown".to_string()));
}

#[test]
fn a_product_without_a_file_has_no_target() {
    let product = BuildProduct {
        package: "a".to_string(),
        kind: ProductKind::Library,
        name: "foo".to_string(),
        executable: None,
        files: Vec::new(),
    };
    assert_eq!(product.canonical_file(), None);
    assert_eq!(product_target(&product, "/ws/target", "host"), Err(ResolutionError::NoProductFile));
}

#[test]
fn a_product_outside_the_output_directory_has_no_target() {
    let product = binary_at("/elsewhere/debug/foo");
    assert_eq!(product_target(&product, "/ws/target", "host"), Err(ResolutionError::OutsideBuildRoot));
    let product = binary_at("/ws/target");
    assert_eq!(product_target(&product, "/ws/target", "host"), Err(ResolutionError::OutsideBuildRoot));
}

#[test]
fn without_a_product_the_flag_comes_before_the_configuration_and_the_host() {
    assert_eq!(flag_target(Some("flag"), Some("config"), "host"), "flag");
    assert_eq!(flag_target(Some("flag"), None, "host"), "flag");
    assert_eq!(flag_target(None, Some("config"), "host"), "config");
    assert_eq!(flag_target(None, None, "host"), "host");
}

#[test]
fn a_product_comes_before_the_flag() {
    let product = binary_at("/ws/target/thumbv6m-none-eabi/debug/foo");
    assert_eq!(
        resolve_target(Some("flag"), Some(&product), "/ws/target", Some("config"), "host"),
        Ok("thumbv6m-none-eabi".to_string())
    );
    assert_eq!(
        resolve_target(Some("flag"), None, "/ws/target", Some("config"), "host"),
        Ok("flag".to_string())
    );
    assert_eq!(resolve_target(None, None, "/ws/target", None, "host"), Ok("host".to_string()));
}

#[test]
fn a_context_holds_what_the_toolchain_reports() {
    let context = Context::from_query("x86_64-unknown-linux-gnu", "x86_64", "little").unwrap();
    assert_eq!(context.target(), "x86_64-unknown-linux-gnu");
    assert_eq!(
        context.cfg(),
        &Cfg { target_arch: "x86_64".to_string(), target_endian: Endian::Little }
    );
    assert_eq!(context.arch_name(), "x86-64");
    assert_eq!(context.arch_args(), vec!["--arch-name=x86-64"]);
    let same = Context::from_target_name(
        "x86_64-unknown-linux-gnu",
        Cfg { target_arch: "x86_64".to_string(), target_endian: Endian::Little },
    );
    assert_eq!(same, context);
}

#[test]
fn an_unknown_byte_order_is_refused() {
    assert_eq!(
        Context::from_query("t", "arm", "mixed"),
        Err(ResolutionError::UnknownEndian("mixed".to_string()))
    );
}

#[test]
fn thumb_targets_are_named_whole() {
    let context = Context::from_query("thumbebv8-none", "arm", "big").unwrap();
    assert_eq!(context.arch_name(), "thumbeb");
    assert_eq!(context.arch_args(), vec!["--triple", "thumbebv8-none"]);
    let context = Context::from_query("armebv7r-none-eabi", "arm", "big").unwrap();
    assert_eq!(context.arch_args(), vec!["--arch-name=armeb"]);
}

#[test]
fn resolution_errors_name_their_cause() {
    assert_eq!(
        ResolutionError::ToolchainQuery("rustc invocation failed: no such target".to_string())
            .message(),
        "the toolchain does not know the target: rustc invocation failed: no such target"
    );
    assert_eq!(
        ResolutionError::UnknownEndian("mixed".to_string()).message(),
        "unknown byte order: mixed"
    );
    assert_eq!(
        ResolutionError::NoProductFile.message(),
        "the build product has no file to tell its target by"
    );
    assert_eq!(
        ResolutionError::OutsideBuildRoot.message(),
        "the build product does not lie in the build's output directory"
    );
}

#[test]
fn the_directory_below_the_output_directory_is_named() {
    let product = binary_at("/ws/target/thumbv7em-none-eabihf/release/foo");
    assert_eq!(product_segment(&product, "/ws/target"), Ok("thumbv7em-none-eabihf".to_string()));
    let product = binary_at("/ws/target/debug/foo");
    assert_eq!(product_segment(&product, "/ws/target"), Ok("debug".to_string()));
    assert!(names_host("debug"));
    assert!(names_host("release"));
    assert!(!names_host("thumbv7em-none-eabihf"));
    assert!(!names_host(""));
}

#[test]
fn a_failed_query_is_an_error_with_its_cause() {
    assert_eq!(
        Context::resolve("nonsense", Err("rustc invocation failed: unknown target".to_string())),
        Err(ResolutionError::ToolchainQuery("rustc invocation failed: unknown target".to_string()))
    );
    assert_eq!(
        Context::resolve("t", Ok(("arm".to_string(), "little".to_string()))),
        Context::from_query("t", "arm", "little")
    );
    assert_eq!(
        Context::resolve("t", Ok(("arm".to_string(), "".to_string()))),
        Err(ResolutionError::UnknownEndian(String::new()))
    );
}

#[test]
fn the_host_is_needed_without_a_product_and_below_a_profile_directory() {
    assert!(host_needed(None, "/ws/target"));
    assert!(host_needed(Some(&binary_at("/ws/target/debug/foo")), "/ws/target"));
    assert!(host_needed(Some(&binary_at("/ws/target/release/deps/foo")), "/ws/target"));
    assert!(!host_needed(Some(&binary_at("/ws/target/thumbv7m-none-eabi/debug/foo")), "/ws/target"));
    assert!(!host_needed(Some(&binary_at("/elsewhere/debug/foo")), "/ws/target"));
    let product = binary_at("/ws/target/thumbv7m-none-eabi/debug/foo");
    assert_eq!(
        resolve_target(None, Some(&product), "/ws/target", None, ""),
        resolve_target(None, Some(&product), "/ws/target", None, "x86_64-unknown-linux-gnu")
    );
}
