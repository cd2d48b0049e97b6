//! The workspace's build configuration, as far as it names a default
//! target.

use vstd::prelude::*;
use vstd::string::*;
use crate::text::opt_text;
use crate::util::{parse, parsed_document, Item, ParseError};

verus! {

/// The `build` table of a configuration file.
#[derive(Debug, PartialEq, Eq)]
pub struct Build {
    /// The target to build for where none is asked for.
    pub target: Option<String>,
}

/// A configuration file.
#[derive(Debug, PartialEq, Eq)]
pub struct Config {
    /// The file's `build` table, where it has one.
    pub build: Option<Build>,
}

/// Mathematical model of a [`Config`]: whether the file has a `build`
/// entry, and the target that the entry records.
pub struct ConfigView {
    pub build: Option<Option<Seq<char>>>,
}

impl View for Config {
    type V = ConfigView;

    open spec fn view(&self) -> ConfigView {
        ConfigView {
            build: match self.build {
                Some(build) => Some(opt_text(build.target)),
                None => None,
            },
        }
    }
}

impl ConfigView {
    /// The target that the configuration records as the default.
    pub open spec fn default_target(self) -> Option<Seq<char>> {
        match self.build {
            Some(target) => target,
            None => None,
        }
    }
}

/// The configuration that a document holds: the string under `target` of
/// its `build` entry. A target that is no string counts as none.
pub open spec fn config_of(document: Item) -> ConfigView {
    ConfigView {
        build: match document.spec_get("build"@) {
            Some(build) => Some(
                match build.spec_get("target"@) {
                    Some(target) => target.spec_as_str(),
                    None => None,
                },
            ),
            None => None,
        },
    }
}

/// The default target that a document records is the string at
/// `build.target`.
pub proof fn lemma_default_target_is_build_target(document: Item)
    ensures
        config_of(document).default_target() == document.text_at("build"@, "target"@),
{
}

impl Config {
    /// The configuration that a parsed document holds.
    pub fn from_document(document: &Item) -> (config: Config)
        ensures
            config@ == config_of(*document),
    {
        let build = match document.get("build") {
            Some(build) => {
                let target = match build.get("target") {
                    Some(target) => match target.as_str() {
                        Some(text) => Some(text.to_owned()),
                        None => None,
                    },
                    None => None,
                };
                Some(Build { target })
            },
            None => None,
        };
        Config { build }
    }

    /// Reads a configuration file from its text. Succeeds exactly where
    /// the text is a TOML document.
    pub fn parse(text: &str) -> (result: Result<Config, ParseError>)
        ensures
            match result {
                Ok(config) => parsed_document(text@) matches Some(document) && config@
                    == config_of(document),
                Err(_) => parsed_document(text@) is None,
            },
    {
        match parse(text) {
            Ok(document) => Ok(Config::from_document(&document)),
            Err(error) => Err(error),
        }
    }

    /// The configuration of a workspace, from the text of the
    /// configuration file that was found for it: none where no file was
    /// found.
    pub fn get(found: Option<&str>) -> (result: Result<Option<Config>, ParseError>)
        ensures
            match found {
                None => result matches Ok(None),
                Some(text) => match result {
                    Ok(Some(config)) => parsed_document(text@) matches Some(document) && config@
                        == config_of(document),
                    Ok(None) => false,
                    Err(_) => parsed_document(text@) is None,
                },
            },
    {
        match found {
            None => Ok(None),
            Some(text) => match Config::parse(text) {
                Ok(config) => Ok(Some(config)),
                Err(error) => Err(error),
            },
        }
    }

    /// The target that the configuration records as the default.
    pub fn default_target(&self) -> (target: Option<&str>)
        ensures
            match target {
                Some(t) => self@.default_target() == Some(t@),
                None => self@.default_target() is None,
            },
    {
        match &self.build {
            Some(build) => match &build.target {
                Some(target) => Some(target.as_str()),
                None => None,
            },
            None => None,
        }
    }
}

} // verus!
