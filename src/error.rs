use vstd::prelude::*;

verus! {

/// Why a provider could not acquire its fact.
#[derive(PartialEq, Eq, Structural, Debug, Clone, Copy)]
pub enum ProviderError {
    /// The backing file or device is absent.
    SourceUnavailable,
    /// The data is present but a numeric or structural field does not parse.
    ParseFailure,
    /// A child process is missing, failed, or gave no usable output.
    ExternalCommandFailed,
    /// A user-supplied input (such as a logo file) could not be used.
    ConfigurationError,
}

} // verus!
