//! The failures a relay call can meet; each becomes the message of an error
//! envelope.
use vstd::prelude::*;

verus! {

/// Why a relay call failed, with the underlying description.
#[derive(Debug, Clone)]
pub enum RelayError {
    /// The URL text did not parse.
    InvalidUrl(String),
    /// The request could not be sent or no response came (DNS, connection,
    /// TLS or protocol failure).
    Transport(String),
    /// The response body broke off while it was read.
    BodyRead(String),
}

/// The human-readable message of an error.
pub open spec fn error_message(e: RelayError) -> Seq<char> {
    match e {
        RelayError::InvalidUrl(d) => "Invalid URL: "@ + d@,
        RelayError::Transport(d) => "Request failed: "@ + d@,
        RelayError::BodyRead(d) => "Failed to read response body: "@ + d@,
    }
}

impl RelayError {
    /// The human-readable message of the error.
    pub fn message(&self) -> (r: String)
        ensures
            r@ == error_message(*self),
    {
        match self {
            RelayError::InvalidUrl(d) => String::from_str("Invalid URL: ").concat(d.as_str()),
            RelayError::Transport(d) => String::from_str("Request failed: ").concat(d.as_str()),
            RelayError::BodyRead(d) => String::from_str("Failed to read response body: ").concat(
                d.as_str(),
            ),
        }
    }
}

/// The message of a URL failure always says that the URL is invalid.
pub proof fn lemma_invalid_url_message(detail: String)
    ensures
        crate::text::starts_with(error_message(RelayError::InvalidUrl(detail)), "Invalid URL"@),
{
    reveal_strlit("Invalid URL: ");
    reveal_strlit("Invalid URL");
    assert(error_message(RelayError::InvalidUrl(detail)).subrange(0, 11) =~= "Invalid URL"@);
}

} // verus!
