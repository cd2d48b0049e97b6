//! Where a build leaves its products, told from the layout of the
//! project rather than from the events of a build.

use vstd::prelude::*;
use vstd::string::*;
use crate::context::opt_str;
use crate::text::{lemma_texts_push, texts};
use crate::util::{parse, parsed_document, Item, ParseError};

verus! {

/// A build product, by what the user calls it.
#[derive(Debug, PartialEq, Eq)]
pub enum Artifact {
    Bin(String),
    Example(String),
    Lib,
}

/// Mathematical model of an [`Artifact`].
pub enum ArtifactView {
    Bin(Seq<char>),
    Example(Seq<char>),
    Lib,
}

impl View for Artifact {
    type V = ArtifactView;

    open spec fn view(&self) -> ArtifactView {
        match self {
            Artifact::Bin(name) => ArtifactView::Bin(name@),
            Artifact::Example(name) => ArtifactView::Example(name@),
            Artifact::Lib => ArtifactView::Lib,
        }
    }
}

/// Why the project's layout cannot be told.
#[derive(Debug, PartialEq, Eq)]
pub enum LayoutError {
    /// No manifest was found in the directory or above it.
    NotInProject,
    /// A manifest is no TOML document.
    Manifest(ParseError),
    /// The manifest names no package.
    NoPackageName,
}

impl LayoutError {
    /// What the user is told.
    pub fn message(&self) -> (text: String)
        ensures
            match self {
                LayoutError::NotInProject => text@ == "not in a Cargo project"@,
                LayoutError::Manifest(ParseError::Syntax(cause)) => text@ == cause@,
                LayoutError::NoPackageName => text@ == "parsing Cargo.toml"@,
            },
    {
        match self {
            LayoutError::NotInProject => String::from_str("not in a Cargo project"),
            LayoutError::Manifest(error) => error.message(),
            LayoutError::NoPackageName => String::from_str("parsing Cargo.toml"),
        }
    }
}

/// The file, in its directory, that stands for the artifact.
pub open spec fn artifact_file(kind: ArtifactView, crate_name: Seq<char>, suffix: Seq<char>) -> Seq<
    char,
> {
    match kind {
        ArtifactView::Bin(name) => name + suffix,
        ArtifactView::Example(name) => "examples/"@ + name,
        ArtifactView::Lib => "lib"@ + crate_name + ".rlib"@,
    }
}

/// The target that the artifact is built for, if it is not the host: the
/// one that was asked for, else the one that the configuration records.
pub open spec fn artifact_target(flag: Option<Seq<char>>, build: Option<Seq<char>>) -> Option<
    Seq<char>,
> {
    match flag {
        Some(target) => Some(target),
        None => build,
    }
}

/// The parts of the artifact's path: those of the build's output
/// directory, the target where there is one, the profile, and the file.
pub open spec fn artifact_parts(
    kind: ArtifactView,
    release: bool,
    target: Option<Seq<char>>,
    target_dir: Seq<Seq<char>>,
    crate_name: Seq<char>,
    suffix: Seq<char>,
) -> Seq<Seq<char>> {
    target_dir + (match target {
        Some(name) => seq![name],
        None => Seq::empty(),
    }) + seq![
        if release {
            "release"@
        } else {
            "debug"@
        },
        artifact_file(kind, crate_name, suffix),
    ]
}

/// The name of an executable: `name` with the platform's suffix for
/// executables.
pub fn exe(name: &str, suffix: &str) -> (file: String)
    ensures
        file@ == name@ + suffix@,
{
    name.to_owned().concat(suffix)
}

/// The path of an artifact of the crate `crate_name`, as the parts that
/// make it up, below the build's output directory `target_dir`.
pub fn artifact(
    kind: &Artifact,
    release: bool,
    target_flag: Option<&str>,
    build_target: Option<&str>,
    target_dir: Vec<String>,
    crate_name: &str,
    suffix: &str,
) -> (parts: Vec<String>)
    ensures
        texts(parts@) == artifact_parts(
            kind@,
            release,
            artifact_target(opt_str(target_flag), opt_str(build_target)),
            texts(target_dir@),
            crate_name@,
            suffix@,
        ),
{
    let mut parts = target_dir;
    let ghost base = texts(parts@);
    let target = match target_flag {
        Some(target) => Some(target),
        None => build_target,
    };
    match target {
        Some(name) => {
            let part = name.to_owned();
            proof {
                lemma_texts_push(parts@, part);
            }
            parts.push(part);
        },
        None => {},
    }
    let profile = if release {
        String::from_str("release")
    } else {
        String::from_str("debug")
    };
    proof {
        lemma_texts_push(parts@, profile);
    }
    parts.push(profile);
    let file = match kind {
        Artifact::Bin(name) => exe(name.as_str(), suffix),
        Artifact::Example(name) => String::from_str("examples/").concat(name.as_str()),
        Artifact::Lib => String::from_str("lib").concat(crate_name).concat(".rlib"),
    };
    proof {
        lemma_texts_push(parts@, file);
    }
    parts.push(file);
    assert(texts(parts@) =~= artifact_parts(
        kind@,
        release,
        artifact_target(opt_str(target_flag), opt_str(build_target)),
        base,
        crate_name@,
        suffix@,
    ));
    parts
}

/// The build's output directory, as the parts of its path, and the name
/// of the crate, for a project of which is known: the directory that
/// holds its manifest and the manifest's document; the output directory
/// that the environment sets; the nearest directory above the project
/// that holds a manifest, and that manifest's document.
///
/// The directory that the environment sets comes first. Else it is the
/// directory `target` of the workspace, where the manifest above is that
/// of one, and of the project itself where it is not.
pub open spec fn layout(
    root: Seq<char>,
    manifest: Item,
    env_target_dir: Option<Seq<char>>,
    outer: Option<(Seq<char>, Item)>,
) -> Option<(Seq<Seq<char>>, Seq<char>)> {
    match manifest.text_at("package"@, "name"@) {
        None => None,
        Some(name) => Some(
            (
                match env_target_dir {
                    Some(dir) => seq![dir],
                    None => match outer {
                        Some((above, document)) => if document.spec_get("workspace"@) is Some {
                            seq![above, "target"@]
                        } else {
                            seq![root, "target"@]
                        },
                        None => seq![root, "target"@],
                    },
                },
                name,
            ),
        ),
    }
}

/// The build's output directory and the name of the crate, from the
/// documents of the manifests.
pub fn layout_of(
    root: &str,
    manifest: &Item,
    env_target_dir: Option<&str>,
    outer: Option<(&str, &Item)>,
) -> (result: Option<(Vec<String>, String)>)
    ensures
        match result {
            Some((parts, name)) => layout(
                root@,
                *manifest,
                opt_str(env_target_dir),
                match outer {
                    Some((above, document)) => Some((above@, *document)),
                    None => None,
                },
            ) == Some((texts(parts@), name@)),
            None => manifest.text_at("package"@, "name"@) is None,
        },
{
    let name = match manifest.string_at("package", "name") {
        Some(text) => text.to_owned(),
        None => {
            return None;
        },
    };
    let mut parts: Vec<String> = Vec::new();
    match env_target_dir {
        Some(dir) => {
            parts.push(dir.to_owned());
            assert(texts(parts@) =~= seq![dir@]);
        },
        None => {
            // the project may lie in a workspace, whose output directory
            // it then shares
            let base = match outer {
                Some((above, document)) => if document.get("workspace").is_some() {
                    above
                } else {
                    root
                },
                None => root,
            };
            parts.push(base.to_owned());
            parts.push(String::from_str("target"));
            assert(texts(parts@) =~= seq![base@, "target"@]);
        },
    }
    Some((parts, name))
}

/// The build's output directory, as the parts of its path, and the name
/// of the crate.
///
/// `project` is the directory that holds the project's manifest, with the
/// manifest's text, where one was found; `env_target_dir` the output
/// directory that the environment sets; `outer` the nearest directory
/// above the project that holds a manifest, with that manifest's text.
/// The manifest above is read only where the environment sets no output
/// directory.
pub fn target_dir(
    project: Option<(&str, &str)>,
    env_target_dir: Option<&str>,
    outer: Option<(&str, &str)>,
) -> (result: Result<(Vec<String>, String), LayoutError>)
    ensures
        project is None ==> result matches Err(LayoutError::NotInProject),
        project matches Some((root, text)) ==> match parsed_document(text@) {
            None => result matches Err(LayoutError::Manifest(_)),
            Some(manifest) => match manifest.text_at("package"@, "name"@) {
                None => result matches Err(LayoutError::NoPackageName),
                Some(name) => match (env_target_dir, outer) {
                    (None, Some((above, above_text))) => match parsed_document(above_text@) {
                        None => result matches Err(LayoutError::Manifest(_)),
                        Some(document) => result matches Ok((parts, crate_name)) && layout(
                            root@,
                            manifest,
                            None,
                            Some((above@, document)),
                        ) == Some((texts(parts@), crate_name@)),
                    },
                    _ => result matches Ok((parts, crate_name)) && layout(
                        root@,
                        manifest,
                        opt_str(env_target_dir),
                        None,
                    ) == Some((texts(parts@), crate_name@)),
                },
            },
        },
{
    let (root, text) = match project {
        Some(found) => found,
        None => {
            return Err(LayoutError::NotInProject);
        },
    };
    let manifest = match parse(text) {
        Ok(manifest) => manifest,
        Err(error) => {
            return Err(LayoutError::Manifest(error));
        },
    };
    if manifest.string_at("package", "name").is_none() {
        return Err(LayoutError::NoPackageName);
    }
    let above = match (env_target_dir, outer) {
        (None, Some((above, above_text))) => match parse(above_text) {
            Ok(document) => Some((above, document)),
            Err(error) => {
                return Err(LayoutError::Manifest(error));
            },
        },
        _ => None,
    };
    let found = match &above {
        Some((dir, document)) => layout_of(root, &manifest, env_target_dir, Some((*dir, document))),
        None => layout_of(root, &manifest, env_target_dir, None),
    };
    match found {
        Some(layout) => Ok(layout),
        None => Err(LayoutError::NoPackageName),
    }
}

} // verus!
