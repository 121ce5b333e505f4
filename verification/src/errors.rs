//! The error taxonomy of the conversion pipeline.
//!
//! Every stage returns one of these kinds; the driver prints the message and
//! stops. No stage retries or recovers.

use vstd::prelude::*;

verus! {

/// One failure kind per way the pipeline can stop early.
#[derive(Debug, Clone, Copy, PartialEq, Eq, Structural)]
pub enum Error {
    /// The subscription URL does not parse at all.
    InvalidUrl,
    /// The URL parses but its scheme is neither "http" nor "https".
    UnsupportedScheme,
    /// The URL parses with an accepted scheme but has no host.
    MissingHost,
    /// The URL fails the conservative shape pattern.
    MalformedUrl,
    /// The subscription server answered with a non-success HTTP status.
    FetchError(u16),
    /// The response body is not a JSON object.
    MalformedSubscription,
    /// The subscription object has no "inbounds" key.
    MissingInbounds,
    /// An inbound entry is not an object, or a field of it has the wrong type.
    MalformedInbound,
    /// The rewritten configuration could not be written to disk.
    FileWriteError,
    /// The external client executable could not be located.
    ExecutableNotFound,
    /// Installing the external client failed.
    InstallFailed,
}

/// The diagnostic text of each error kind.
pub open spec fn message_spec(e: Error) -> Seq<char> {
    match e {
        Error::InvalidUrl => "URL parse failed."@,
        Error::UnsupportedScheme => "Only support http or https."@,
        Error::MissingHost => "Invalid url without host name."@,
        Error::MalformedUrl => "Invalid url, please check again."@,
        Error::FetchError(_) => "Error fetching subscription: non-success HTTP status."@,
        Error::MalformedSubscription => "The subscription body is not a JSON object."@,
        Error::MissingInbounds => "Can't find any inbounds in target configuration."@,
        Error::MalformedInbound => "Malformed inbound entry in target configuration."@,
        Error::FileWriteError => "Failed to write config.json."@,
        Error::ExecutableNotFound => "sing-box executable not found."@,
        Error::InstallFailed => "Failed to install sing-box, please try: brew install sing-box."@,
    }
}

impl Error {
    /// A single human-readable diagnostic line for this error.
    pub fn message(&self) -> (r: String)
        ensures
            r@ == message_spec(*self),
    {
        match *self {
            Error::InvalidUrl => "URL parse failed.".to_owned(),
            Error::UnsupportedScheme => "Only support http or https.".to_owned(),
            Error::MissingHost => "Invalid url without host name.".to_owned(),
            Error::MalformedUrl => "Invalid url, please check again.".to_owned(),
            Error::FetchError(_) => "Error fetching subscription: non-success HTTP status.".to_owned(),
            Error::MalformedSubscription => "The subscription body is not a JSON object.".to_owned(),
            Error::MissingInbounds => "Can't find any inbounds in target configuration.".to_owned(),
            Error::MalformedInbound => "Malformed inbound entry in target configuration.".to_owned(),
            Error::FileWriteError => "Failed to write config.json.".to_owned(),
            Error::ExecutableNotFound => "sing-box executable not found.".to_owned(),
            Error::InstallFailed => "Failed to install sing-box, please try: brew install sing-box.".to_owned(),
        }
    }
}

} // verus!
