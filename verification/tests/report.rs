use cargo_binutils::args::BuildOptions;
use cargo_binutils::classify::BuildProductSelector;
use cargo_binutils::orchestrator::BuildError;
use cargo_binutils::product::{BuildProduct, ProductKind};
use cargo_binutils::report::{command_line_for, join_words, listing_of, owners_of, selector_name_of};
use cargo_binutils::Tool;

fn made(package: &str, kind: ProductKind, name: &str) -> BuildProduct {
    BuildProduct {
        package: package.to_string(),
        kind,
        name: name.to_string(),
        executable: None,
        files: Vec::new(),
    }
}

fn options(selector: BuildProductSelector) -> BuildOptions {
    BuildOptions {
        selector,
        quiet: false,
        package: None,
        config: Vec::new(),
        jobs: None,
        release: false,
        profile: None,
        manifest_path: None,
        features: Vec::new(),
        no_default_features: false,
        all_features: false,
        target: None,
        verbose: 0,
        color: None,
        frozen: false,
        locked: false,
        offline: false,
        unstable_features: Vec::new(),
    }
}

#[test]
fn words_are_joined_with_the_separator_between_them() {
    let words = |list: &[&str]| list.iter().map(|w| w.to_string()).collect::<Vec<String>>();
    assert_eq!(join_words(&words(&[]), " "), "");
    assert_eq!(join_words(&words(&["one"]), " "), "one");
    assert_eq!(join_words(&words(&["one", "two", "three"]), " "), "one two three");
    assert_eq!(join_words(&words(&["", "x", ""]), ", "), ", x, ");
}

#[test]
fn each_kind_has_its_command_line() {
    assert_eq!(command_line_for(Tool::Nm, None, &made("a", ProductKind::Binary, "app")), "cargo nm --bin app");
    assert_eq!(
        command_line_for(Tool::Objdump, None, &made("a", ProductKind::Example, "demo")),
        "cargo objdump --example demo"
    );
    assert_eq!(command_line_for(Tool::Size, None, &made("a", ProductKind::Test, "it")), "cargo size --test it");
    assert_eq!(
        command_line_for(Tool::Strip, None, &made("a", ProductKind::Bench, "fast")),
        "cargo strip --bench fast"
    );
    assert_eq!(command_line_for(Tool::Nm, None, &made("a", ProductKind::Library, "a")), "cargo nm --lib");
    assert_eq!(
        command_line_for(Tool::Nm, None, &made("a", ProductKind::Other("cdylib".to_string()), "a")),
        "cargo nm --lib"
    );
    assert_eq!(
        command_line_for(Tool::Nm, None, &made("a", ProductKind::CustomBuildScript, "build-script-build")),
        "cargo nm"
    );
    assert_eq!(
        command_line_for(Tool::Nm, Some("a"), &made("a", ProductKind::CustomBuildScript, "build-script-build")),
        "cargo nm --package a"
    );
    assert_eq!(
        command_line_for(Tool::Readobj, Some("pkg"), &made("pkg", ProductKind::Binary, "app")),
        "cargo readobj --package pkg --bin app"
    );
}

#[test]
fn owners_are_listed_once_in_order_of_appearance() {
    let candidates = vec![
        made("b", ProductKind::Binary, "one"),
        made("a", ProductKind::Binary, "two"),
        made("b", ProductKind::Binary, "three"),
        made("c", ProductKind::Binary, "four"),
        made("a", ProductKind::Binary, "five"),
    ];
    assert_eq!(owners_of(&candidates), vec!["b", "a", "c"]);
    assert_eq!(owners_of(&Vec::new()), Vec::<String>::new());
}

#[test]
fn candidates_of_one_member_are_listed_plainly() {
    let candidates = vec![
        made("a", ProductKind::Binary, "one"),
        made("a", ProductKind::Example, "two"),
    ];
    assert_eq!(
        listing_of(Tool::Nm, &candidates),
        vec!["cargo nm --bin one", "cargo nm --example two"]
    );
    assert_eq!(listing_of(Tool::Nm, &Vec::new()), Vec::<String>::new());
}

#[test]
fn candidates_of_several_members_are_grouped_by_member() {
    let candidates = vec![
        made("b", ProductKind::Binary, "app"),
        made("a", ProductKind::Binary, "app"),
        made("b", ProductKind::Binary, "tool"),
    ];
    assert_eq!(
        listing_of(Tool::Size, &candidates),
        vec![
            "b:",
            "    cargo size --package b --bin app",
            "    cargo size --package b --bin tool",
            "a:",
            "    cargo size --package a --bin app",
        ]
    );
}

#[test]
fn selectors_are_named_by_their_flags() {
    assert_eq!(selector_name_of(&BuildProductSelector::Any), "a binary or an example");
    assert_eq!(selector_name_of(&BuildProductSelector::CustomBuildScript), "a build script");
    assert_eq!(selector_name_of(&BuildProductSelector::Library), "--lib");
    assert_eq!(selector_name_of(&BuildProductSelector::Binary("app".to_string())), "--bin app");
    assert_eq!(selector_name_of(&BuildProductSelector::Example("e".to_string())), "--example e");
    assert_eq!(selector_name_of(&BuildProductSelector::Test("t".to_string())), "--test t");
    assert_eq!(selector_name_of(&BuildProductSelector::Bench("n".to_string())), "--bench n");
}

#[test]
fn a_failed_build_is_explained_with_the_command_to_run() {
    let mut given = options(BuildProductSelector::Binary("app".to_string()));
    given.release = true;
    given.target = Some("thumbv7m-none-eabi".to_string());
    assert_eq!(
        BuildError::BuildFailed.explain(Tool::Nm, &given),
        vec![
            "the build failed; for the details run `cargo build --bin app --release --target thumbv7m-none-eabi --verbose`"
        ]
    );
}

#[test]
fn a_build_without_a_match_is_explained_with_the_selector() {
    assert_eq!(
        BuildError::NoMatchingTargets.explain(Tool::Nm, &options(BuildProductSelector::Example("demo".to_string()))),
        vec!["the build produced nothing that matches --example demo"]
    );
    assert_eq!(
        BuildError::NoMatchingTargets.explain(Tool::Nm, &options(BuildProductSelector::Any)),
        vec!["the build produced nothing that matches a binary or an example"]
    );
}

#[test]
fn an_ambiguous_build_is_explained_with_the_listing() {
    let error = BuildError::AmbiguousTargets(vec![
        made("a", ProductKind::Binary, "one"),
        made("a", ProductKind::Binary, "two"),
    ]);
    assert_eq!(
        error.explain(Tool::Objdump, &options(BuildProductSelector::Any)),
        vec![
            "several build products match; run one of:",
            "cargo objdump --bin one",
            "cargo objdump --bin two",
        ]
    );
}
