//! The directories the application keeps its files in.

use vstd::prelude::*;

verus! {

#[verifier::external_type_specification]
#[verifier::external_body]
pub struct ExPathBuf(std::path::PathBuf);

/// The log, default library, local config and themes directories.
pub struct Directories {
    log: std::path::PathBuf,
    default_data: std::path::PathBuf,
    config: std::path::PathBuf,
    themes: std::path::PathBuf,
}

/// What the directories' contracts speak of.
pub struct DirectoriesView {
    pub log: std::path::PathBuf,
    pub default_data: std::path::PathBuf,
    pub config: std::path::PathBuf,
    pub themes: std::path::PathBuf,
}

impl View for Directories {
    type V = DirectoriesView;

    closed spec fn view(&self) -> DirectoriesView {
        DirectoriesView {
            log: self.log,
            default_data: self.default_data,
            config: self.config,
            themes: self.themes,
        }
    }
}

impl Directories {
    /// The directories at the given paths.
    pub fn from_paths(
        log: std::path::PathBuf,
        default_data: std::path::PathBuf,
        config: std::path::PathBuf,
        themes: std::path::PathBuf,
    ) -> (d: Self)
        ensures
            d@ == (DirectoriesView { log: log, default_data: default_data, config: config, themes: themes }),
    {
        Directories { log, default_data, config, themes }
    }

    /// Where the logs go.
    pub fn log(&self) -> (r: &std::path::PathBuf)
        ensures
            *r == self@.log,
    {
        &self.log
    }

    /// Where the library is kept unless the config says otherwise.
    pub fn default_data(&self) -> (r: &std::path::PathBuf)
        ensures
            *r == self@.default_data,
    {
        &self.default_data
    }

    /// The local config file.
    pub fn config(&self) -> (r: &std::path::PathBuf)
        ensures
            *r == self@.config,
    {
        &self.config
    }

    /// Where the user's themes are kept.
    pub fn themes(&self) -> (r: &std::path::PathBuf)
        ensures
            *r == self@.themes,
    {
        &self.themes
    }
}

} // verus!
