//! Why a resolution fails.
use vstd::prelude::*;

verus! {

/// The ways in which resolving a crate name to a version can fail.
#[derive(Debug)]
pub enum FetchError {
    /// The requested crate name is empty.
    EmptyCrateName,
    /// A toolchain version is not a single caret comparator such as `1.32`.
    InvalidToolchainSpec,
    /// No spelling of the requested name is known to the index.
    CrateNotFound(String),
    /// The index holds the crate, but every version was filtered out.
    NoAvailableVersion,
    /// A version text of the index does not parse.
    InvalidVersion,
}

/// The message of each error.
pub open spec fn error_text(e: FetchError) -> Seq<char> {
    match e {
        FetchError::EmptyCrateName => "Found empty crate name"@,
        FetchError::InvalidToolchainSpec => "rust-version must be a value like `1.32`"@,
        FetchError::CrateNotFound(name) => "The crate `"@ + name@
            + "` could not be found in registry index."@,
        FetchError::NoAvailableVersion => NO_AVAILABLE_VERSION@,
        FetchError::InvalidVersion => "A version in the registry index is not a semantic version"@,
    }
}

pub const NO_AVAILABLE_VERSION: &'static str = "No available versions exist. Either all were yanked or only prerelease versions exist. Trying with the --allow-prerelease flag might solve the issue.";

impl FetchError {
    /// A message for the user.
    pub fn message(&self) -> (r: String)
        ensures
            r@ == error_text(*self),
    {
        match self {
            FetchError::EmptyCrateName => String::from_str("Found empty crate name"),
            FetchError::InvalidToolchainSpec => String::from_str(
                "rust-version must be a value like `1.32`",
            ),
            FetchError::CrateNotFound(name) => String::from_str("The crate `").concat(
                name.as_str(),
            ).concat("` could not be found in registry index."),
            FetchError::NoAvailableVersion => String::from_str(NO_AVAILABLE_VERSION),
            FetchError::InvalidVersion => String::from_str(
                "A version in the registry index is not a semantic version",
            ),
        }
    }
}

} // verus!
