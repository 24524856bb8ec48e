//! Errors that the library hands back to its callers.

use vstd::prelude::*;

verus! {

/// Every way in which discovery, the metadata cache or an identity switch can fail.
#[derive(Debug)]
pub enum VariantError {
    /// The home directory could not be resolved.
    NoHome,
    /// `<home>/.ssh` does not exist or is not a directory.
    NoRoot,
    /// A directory or file name is not valid text.
    InvalidName,
    /// A variant directory holds no `.pub` file.
    NoPrivateKey,
    /// No variant carries the requested name.
    NotFound,
    /// Starting the ssh agent or clearing its identities failed; carries the raw output.
    AgentUnavailable(Vec<u8>),
    /// Loading the private key into the agent failed; carries the raw output.
    KeyRegistrationFailed(Vec<u8>),
    /// Setting a git configuration value failed; carries the raw output.
    ConfigCommitFailed(Vec<u8>),
    /// Listing the git configuration failed; carries the raw output.
    ProcessFailed(Vec<u8>),
    /// The metadata provider gave no metadata; carries its message.
    MetadataUnavailable(String),
    /// The cache holds a payload that is not a list of metadata records.
    CacheCorrupt(String),
    /// The cache storage cannot be reached or written.
    CacheUnavailable(String),
    /// Reading the file system or starting a process failed.
    IO(String),
    /// An identity switch was handed an outcome that does not answer its last command,
    /// or was driven on after it finished.
    OutOfOrder,
}

} // verus!
