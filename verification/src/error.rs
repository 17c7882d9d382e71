//! The failures of fetching a player's ratings.

use vstd::prelude::*;

verus! {

/// The error type of the `ureq` HTTP client. It is carried through as it
/// is; nothing is claimed of what it holds.
#[verifier::external_type_specification]
#[verifier::external_body]
pub struct ExUreqError(ureq::Error);

/// Why no ratings could be had.
#[derive(Debug, Clone, Copy, PartialEq, Eq, Structural)]
pub enum EloGetError {
    /// The service could not be reached, or answered with a failure.
    HttpError,
    /// The service answered with something other than the expected document.
    JsonError,
    /// The name given for the service is not one of the known ones.
    InvalidSource,
}

impl EloGetError {
    /// The line that reports this failure.
    pub open spec fn message(self) -> Seq<char> {
        match self {
            EloGetError::HttpError => "Error while handling http stuff."@,
            EloGetError::JsonError => "Error while parsing json."@,
            EloGetError::InvalidSource => "Specified source is not valid, or is mispelled."@,
        }
    }

    /// The line that reports this failure.
    pub fn to_string(&self) -> (text: String)
        ensures
            text@ == self.message(),
    {
        match self {
            EloGetError::HttpError => String::from_str("Error while handling http stuff."),
            EloGetError::JsonError => String::from_str("Error while parsing json."),
            EloGetError::InvalidSource => String::from_str(
                "Specified source is not valid, or is mispelled.",
            ),
        }
    }
}

/// Whatever went wrong inside the HTTP client counts as a transport failure.
impl From<ureq::Error> for EloGetError {
    fn from(err: ureq::Error) -> (res: EloGetError) {
        EloGetError::HttpError
    }
}

impl vstd::std_specs::convert::FromSpecImpl<ureq::Error> for EloGetError {
    open spec fn obeys_from_spec() -> bool {
        true
    }

    open spec fn from_spec(err: ureq::Error) -> EloGetError {
        EloGetError::HttpError
    }
}

} // verus!
