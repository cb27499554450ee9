//! The two modes of a build.

use vstd::prelude::*;

verus! {

/// How the site is built.
#[derive(Clone, Copy, Debug, PartialEq, Eq, Structural)]
pub enum BuildMode {
    /// For publication.
    Release,
    /// For work on the site.
    Development,
}

/// The name under which a mode is stored in build metadata.
pub open spec fn mode_name(mode: BuildMode) -> Seq<char> {
    match mode {
        BuildMode::Release => "release"@,
        BuildMode::Development => "development"@,
    }
}

impl BuildMode {
    /// The name under which the mode is stored in build metadata.
    pub fn name(&self) -> (name: String)
        ensures
            name@ == mode_name(*self),
    {
        match self {
            BuildMode::Release => "release".to_owned(),
            BuildMode::Development => "development".to_owned(),
        }
    }
}

/// The two names differ, so a stored name belongs to at most one mode.
pub proof fn lemma_mode_names_differ()
    ensures
        mode_name(BuildMode::Release) != mode_name(BuildMode::Development),
{
    reveal_strlit("release");
    reveal_strlit("development");
    assert("release"@.len() != "development"@.len());
}

/// The mode that the flags of a command line ask for: release wins over
/// development, and without either flag the default stands.
pub open spec fn chosen_mode(default: BuildMode, release: bool, dev: bool) -> BuildMode {
    if release {
        BuildMode::Release
    } else if dev {
        BuildMode::Development
    } else {
        default
    }
}

/// The mode that the flags of a command line ask for.
pub fn get_build_mode(default: BuildMode, release: bool, dev: bool) -> (mode: BuildMode)
    ensures
        mode == chosen_mode(default, release, dev),
{
    if release {
        BuildMode::Release
    } else if dev {
        BuildMode::Development
    } else {
        default
    }
}

} // verus!
