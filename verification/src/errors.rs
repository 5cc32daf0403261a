use vstd::prelude::*;
use vstd::string::StringExecFns;

verus! {

/// Errors reported by the URL parser and by the address-ordering helper.
///
/// The first four variants form the parser's closed taxonomy; the last two
/// belong to address resolution and are never returned by `Url::parse`.
#[derive(Debug, Clone, PartialEq, Eq)]
pub enum AppError {
    /// The input fails structurally before any scheme-specific rule applies;
    /// the payload names the reason (currently only a missing scheme separator).
    MalformedUrl(String),
    /// The scheme token (the payload, exactly as extracted) is not one of the
    /// supported schemes.
    UnsupportedScheme(String),
    /// A present port substring is not a valid unsigned 16-bit decimal number.
    InvalidPort,
    /// A hierarchical URL's authority is empty.
    MissingHost,
    /// Address resolution failed; the payload describes the failure.
    ResolutionFailed(String),
    /// Address resolution returned no addresses at all.
    NoAddressesFound,
}

/// The mathematical value of an `AppError`: string payloads as character
/// sequences.
#[verifier::ext_equal]
pub enum SpecAppError {
    MalformedUrl(Seq<char>),
    UnsupportedScheme(Seq<char>),
    InvalidPort,
    MissingHost,
    ResolutionFailed(Seq<char>),
    NoAddressesFound,
}

impl View for AppError {
    type V = SpecAppError;

    open spec fn view(&self) -> SpecAppError {
        match self {
            AppError::MalformedUrl(reason) => SpecAppError::MalformedUrl(reason@),
            AppError::UnsupportedScheme(token) => SpecAppError::UnsupportedScheme(token@),
            AppError::InvalidPort => SpecAppError::InvalidPort,
            AppError::MissingHost => SpecAppError::MissingHost,
            AppError::ResolutionFailed(detail) => SpecAppError::ResolutionFailed(detail@),
            AppError::NoAddressesFound => SpecAppError::NoAddressesFound,
        }
    }
}

/// The message each error carries for a reader.
pub open spec fn spec_message(e: SpecAppError) -> Seq<char> {
    match e {
        SpecAppError::MalformedUrl(reason) => "Invalid URL: "@ + reason,
        SpecAppError::UnsupportedScheme(token) => "Unsupported Scheme: "@ + token,
        SpecAppError::InvalidPort => "Invalid Port"@,
        SpecAppError::MissingHost => "Invalid URL: Missing host"@,
        SpecAppError::ResolutionFailed(detail) => "DNS Error: "@ + detail,
        SpecAppError::NoAddressesFound => "DNS Lookup Error: No address found"@,
    }
}

impl AppError {
    /// The error's human-readable message, in the place of a `Display` form.
    pub fn message(&self) -> (r: String)
        ensures
            r@ == spec_message(self@),
    {
        match self {
            AppError::MalformedUrl(reason) => "Invalid URL: ".to_owned().concat(reason.as_str()),
            AppError::UnsupportedScheme(token) => "Unsupported Scheme: ".to_owned().concat(
                token.as_str(),
            ),
            AppError::InvalidPort => "Invalid Port".to_owned(),
            AppError::MissingHost => "Invalid URL: Missing host".to_owned(),
            AppError::ResolutionFailed(detail) => "DNS Error: ".to_owned().concat(detail.as_str()),
            AppError::NoAddressesFound => "DNS Lookup Error: No address found".to_owned(),
        }
    }
}

} // verus!
