use vstd::prelude::*;
use crate::errors::{AppError, SpecAppError};
use crate::text::str_eq;

verus! {

/// The closed set of schemes the parser understands.
#[derive(Debug, Clone, Copy, PartialEq, Eq, Hash, Structural)]
pub enum Scheme {
    Http,
    Https,
    Ws,
    About,
    Wss,
    File,
}

/// Which scheme, if any, a token denotes. Tokens match case-sensitively and
/// without any normalization.
pub open spec fn spec_scheme_of(token: Seq<char>) -> Option<Scheme> {
    if token == "http"@ {
        Some(Scheme::Http)
    } else if token == "https"@ {
        Some(Scheme::Https)
    } else if token == "ws"@ {
        Some(Scheme::Ws)
    } else if token == "about"@ {
        Some(Scheme::About)
    } else if token == "wss"@ {
        Some(Scheme::Wss)
    } else if token == "file"@ {
        Some(Scheme::File)
    } else {
        None
    }
}

/// The conventional port of a scheme: 80 for http and ws, 443 for https and
/// wss, none otherwise.
pub open spec fn spec_default_port(scheme: Scheme) -> Option<u16> {
    match scheme {
        Scheme::Http | Scheme::Ws => Some(80u16),
        Scheme::Https | Scheme::Wss => Some(443u16),
        _ => None,
    }
}

/// Whether a scheme's URLs carry an authority (host and port) and a path;
/// only `about` is opaque.
pub open spec fn spec_is_hierarchical(scheme: Scheme) -> bool {
    !(scheme is About)
}

impl Scheme {
    /// Matches a scheme token against the closed set, case-sensitively; an
    /// unknown token is rejected as `UnsupportedScheme` carrying that exact
    /// token.
    pub fn parse(input: &str) -> (r: Result<Self, AppError>)
        ensures
            match r {
                Ok(s) => spec_scheme_of(input@) == Some(s),
                Err(e) => spec_scheme_of(input@) is None && e@
                    == SpecAppError::UnsupportedScheme(input@),
            },
    {
        if str_eq(input, "http") {
            Ok(Scheme::Http)
        } else if str_eq(input, "https") {
            Ok(Scheme::Https)
        } else if str_eq(input, "ws") {
            Ok(Scheme::Ws)
        } else if str_eq(input, "about") {
            Ok(Scheme::About)
        } else if str_eq(input, "wss") {
            Ok(Scheme::Wss)
        } else if str_eq(input, "file") {
            Ok(Scheme::File)
        } else {
            Err(AppError::UnsupportedScheme(input.to_owned()))
        }
    }

    /// The scheme's conventional port, if it has one: a pure lookup with no
    /// failure mode.
    pub fn default_port(&self) -> (r: Option<u16>)
        ensures
            r == spec_default_port(*self),
    {
        match self {
            Scheme::Http | Scheme::Ws => Some(80),
            Scheme::Https | Scheme::Wss => Some(443),
            _ => None,
        }
    }

    /// Whether this scheme's URLs carry an authority and a path: a pure
    /// lookup with no failure mode.
    pub fn is_hierarchical(&self) -> (r: bool)
        ensures
            r == spec_is_hierarchical(*self),
    {
        match self {
            Scheme::About => false,
            _ => true,
        }
    }
}

} // verus!
