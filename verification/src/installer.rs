//! How a plugin or tool is installed: either by the built-in mechanism or
//! from a git repository pinned to a branch, tag or revision.  These are
//! plain configuration records; nothing here runs an installation.

use vstd::prelude::*;

verus! {

/// The installation choice of a document entry.
pub struct Install {
    /// The installer to use.
    pub installer: Installer,
}

/// An installation mechanism.
pub enum Installer {
    /// The built-in installer.
    Builtin,
    /// Installation by cloning a git repository.
    Git(GitInstaller),
}

/// A git clone target, pinned to at most one of branch, tag or revision.
pub struct GitInstaller {
    /// The repository URL.
    pub url: String,
    /// The destination directory.
    pub dest: String,
    /// The branch to check out, if any.
    pub branch: Option<String>,
    /// The tag to check out, if any.
    pub tag: Option<String>,
    /// The revision to check out, if any.
    pub rev: Option<String>,
}

} // verus!
