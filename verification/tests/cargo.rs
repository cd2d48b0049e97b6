use cargo_binutils::cargo::{artifact, exe, layout_of, target_dir, Artifact, LayoutError};
use cargo_binutils::util::parse;

fn parts(list: &[&str]) -> Vec<String> {
    list.iter().map(|part| part.to_string()).collect()
}

#[test]
fn an_executable_carries_the_suffix() {
    assert_eq!(exe("app", ""), "app");
    assert_eq!(exe("app", ".exe"), "app.exe");
}

#[test]
fn a_binary_lies_in_the_profile_directory() {
    assert_eq!(
        artifact(&Artifact::Bin("app".to_string()), false, None, None, parts(&["/ws", "target"]), "krate", ""),
        parts(&["/ws", "target", "debug", "app"])
    );
    assert_eq!(
        artifact(&Artifact::Bin("app".to_string()), true, None, None, parts(&["/ws", "target"]), "krate", ".exe"),
        parts(&["/ws", "target", "release", "app.exe"])
    );
}

#[test]
fn an_example_lies_among_the_examples() {
    assert_eq!(
        artifact(&Artifact::Example("demo".to_string()), false, None, None, parts(&["t"]), "krate", ".exe"),
        parts(&["t", "debug", "examples/demo"])
    );
}

#[test]
fn a_library_is_named_after_the_crate() {
    assert_eq!(
        artifact(&Artifact::Lib, true, None, None, parts(&["t"]), "krate", ".exe"),
        parts(&["t", "release", "libkrate.rlib"])
    );
}

#[test]
fn a_target_adds_a_directory_and_the_flag_comes_first() {
    assert_eq!(
        artifact(&Artifact::Lib, false, Some("flag"), Some("config"), parts(&["t"]), "k", ""),
        parts(&["t", "flag", "debug", "libk.rlib"])
    );
    assert_eq!(
        artifact(&Artifact::Lib, false, None, Some("config"), parts(&["t"]), "k", ""),
        parts(&["t", "config", "debug", "libk.rlib"])
    );
    assert_eq!(
        artifact(&Artifact::Lib, false, Some("flag"), None, parts(&["t"]), "k", ""),
        parts(&["t", "flag", "debug", "libk.rlib"])
    );
}

const MANIFEST: &str = "[package]\nname = \"krate\"\nversion = \"0.1.0\"\n";
const WORKSPACE: &str = "[workspace]\nmembers = [\"krate\"]\n";

#[test]
fn outside_a_project_there_is_no_output_directory() {
    assert_eq!(target_dir(None, None, None), Err(LayoutError::NotInProject));
    assert_eq!(target_dir(None, Some("/tmp/t"), Some(("/ws", WORKSPACE))), Err(LayoutError::NotInProject));
    assert_eq!(LayoutError::NotInProject.message(), "not in a Cargo project");
}

#[test]
fn a_project_has_its_own_output_directory() {
    assert_eq!(
        target_dir(Some(("/ws/krate", MANIFEST)), None, None),
        Ok((parts(&["/ws/krate", "target"]), "krate".to_string()))
    );
}

#[test]
fn the_environment_overrides_the_output_directory() {
    assert_eq!(
        target_dir(Some(("/ws/krate", MANIFEST)), Some("/tmp/out"), Some(("/ws", WORKSPACE))),
        Ok((parts(&["/tmp/out"]), "krate".to_string()))
    );
    assert_eq!(
        target_dir(Some(("/ws/krate", MANIFEST)), Some("/tmp/out"), Some(("/ws", "[broken"))),
        Ok((parts(&["/tmp/out"]), "krate".to_string()))
    );
}

#[test]
fn a_member_shares_the_output_directory_of_its_workspace() {
    assert_eq!(
        target_dir(Some(("/ws/krate", MANIFEST)), None, Some(("/ws", WORKSPACE))),
        Ok((parts(&["/ws", "target"]), "krate".to_string()))
    );
}

#[test]
fn a_manifest_above_that_is_no_workspace_is_passed_over() {
    assert_eq!(
        target_dir(Some(("/ws/krate", MANIFEST)), None, Some(("/ws", MANIFEST))),
        Ok((parts(&["/ws/krate", "target"]), "krate".to_string()))
    );
}

#[test]
fn a_manifest_without_a_package_name_is_refused() {
    assert_eq!(
        target_dir(Some(("/ws", WORKSPACE)), None, None),
        Err(LayoutError::NoPackageName)
    );
    assert_eq!(
        target_dir(Some(("/ws", "[package]\nname = 3\n")), Some("/tmp/out"), None),
        Err(LayoutError::NoPackageName)
    );
    assert_eq!(
        target_dir(Some(("/ws", "[package]\nversion = \"1\"\n")), None, Some(("/", "[broken"))),
        Err(LayoutError::NoPackageName)
    );
    assert_eq!(LayoutError::NoPackageName.message(), "parsing Cargo.toml");
}

#[test]
fn a_broken_manifest_is_refused() {
    match target_dir(Some(("/ws", "[package")), None, None) {
        Err(LayoutError::Manifest(error)) => {
            assert!(!error.message().is_empty());
        }
        other => panic!("{:?}", other),
    }
    assert!(matches!(
        target_dir(Some(("/ws/krate", MANIFEST)), None, Some(("/ws", "[workspace"))),
        Err(LayoutError::Manifest(_))
    ));
}

#[test]
fn the_layout_is_told_from_parsed_manifests() {
    let manifest = parse(MANIFEST).unwrap();
    let workspace = parse(WORKSPACE).unwrap();
    assert_eq!(
        layout_of("/ws/krate", &manifest, None, Some(("/ws", &workspace))),
        Some((parts(&["/ws", "target"]), "krate".to_string()))
    );
    assert_eq!(
        layout_of("/ws/krate", &manifest, None, Some(("/ws", &manifest))),
        Some((parts(&["/ws/krate", "target"]), "krate".to_string()))
    );
    assert_eq!(layout_of("/ws", &workspace, None, None), None);
}
