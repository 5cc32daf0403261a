use vstd::prelude::*;
use vstd::string::StrSliceExecFns;
use crate::errors::{AppError, SpecAppError};
use crate::scheme::{Scheme, spec_default_port, spec_is_hierarchical, spec_scheme_of};
use crate::text::{find_char, first_index_of, parse_port, spec_port_number};

verus! {

/// A parsed URL: an immutable value produced once by `Url::parse` and owned
/// by the caller.
#[derive(Debug, Clone, PartialEq, Eq)]
pub struct Url {
    /// The scheme, always present.
    pub scheme: Scheme,
    /// The host, present exactly when the scheme is hierarchical.
    pub host: Option<String>,
    /// The port: the explicit authority port, or the scheme's default.
    pub port: Option<u16>,
    /// The path: for hierarchical URLs it starts with `/`; for opaque ones it
    /// is the remainder verbatim.
    pub path: String,
    /// The substring after the first `?`, unparsed.
    pub query: Option<String>,
}

/// The mathematical value of a `Url`: its strings as character sequences.
#[verifier::ext_equal]
pub struct SpecUrl {
    pub scheme: Scheme,
    pub host: Option<Seq<char>>,
    pub port: Option<u16>,
    pub path: Seq<char>,
    pub query: Option<Seq<char>>,
}

impl View for Url {
    type V = SpecUrl;

    open spec fn view(&self) -> SpecUrl {
        SpecUrl {
            scheme: self.scheme,
            host: match self.host {
                Some(h) => Some(h@),
                None => None,
            },
            port: self.port,
            path: self.path@,
            query: match self.query {
                Some(q) => Some(q@),
                None => None,
            },
        }
    }
}

/// Position of the first `:` in the raw input, `raw.len()` when there is
/// none.
pub open spec fn scheme_sep(raw: Seq<char>) -> int {
    first_index_of(raw, ':')
}

/// Whether the raw input has a scheme separator at all.
pub open spec fn has_scheme_sep(raw: Seq<char>) -> bool {
    scheme_sep(raw) < raw.len()
}

/// The scheme token: everything before the first `:`.
pub open spec fn scheme_token(raw: Seq<char>) -> Seq<char> {
    raw.subrange(0, scheme_sep(raw))
}

/// Everything after the first `:`, with a leading `//` authority marker
/// dropped if one is present.
pub open spec fn url_body(raw: Seq<char>) -> Seq<char> {
    let rest = raw.subrange(scheme_sep(raw) + 1, raw.len() as int);
    if rest.len() >= 2 && rest[0] == '/' && rest[1] == '/' {
        rest.subrange(2, rest.len() as int)
    } else {
        rest
    }
}

/// The body up to its first `?`: the authority-and-path region.
pub open spec fn pre_query(raw: Seq<char>) -> Seq<char> {
    url_body(raw).subrange(0, first_index_of(url_body(raw), '?'))
}

/// The query: everything after the first `?` of the body, if one is present.
pub open spec fn query_part(raw: Seq<char>) -> Option<Seq<char>> {
    let body = url_body(raw);
    let qi = first_index_of(body, '?');
    if qi < body.len() {
        Some(body.subrange(qi + 1, body.len() as int))
    } else {
        None
    }
}

/// The host-and-port token of a hierarchical URL: the authority-and-path
/// region up to its first `/`.
pub open spec fn host_port_token(raw: Seq<char>) -> Seq<char> {
    pre_query(raw).subrange(0, first_index_of(pre_query(raw), '/'))
}

/// The path of a hierarchical URL: the authority-and-path region from its
/// first `/` on, or a synthesized `/` when it has none.
pub open spec fn hier_path(raw: Seq<char>) -> Seq<char> {
    let region = pre_query(raw);
    let si = first_index_of(region, '/');
    if si < region.len() {
        region.subrange(si, region.len() as int)
    } else {
        "/"@
    }
}

/// The port substring: everything after the first `:` of the host-and-port
/// token, if that token has a `:` at all.
pub open spec fn port_token(raw: Seq<char>) -> Option<Seq<char>> {
    let hp = host_port_token(raw);
    let ci = first_index_of(hp, ':');
    if ci < hp.len() {
        Some(hp.subrange(ci + 1, hp.len() as int))
    } else {
        None
    }
}

/// The host of a hierarchical URL with an explicit port: the host-and-port
/// token up to its first `:`.
pub open spec fn host_token(raw: Seq<char>) -> Seq<char> {
    let hp = host_port_token(raw);
    hp.subrange(0, first_index_of(hp, ':'))
}

/// What parsing a raw URL yields: a single deterministic pass with no
/// backtracking.
///
/// An input without `:` is malformed; an unknown scheme token is rejected
/// carrying that exact token; an opaque scheme takes the whole region as its
/// path, verbatim; a hierarchical scheme requires a non-empty authority,
/// resolves the port from the explicit substring or the scheme default, and
/// normalizes the path to start with `/`.
pub open spec fn spec_parse(raw: Seq<char>) -> Result<SpecUrl, SpecAppError> {
    if !has_scheme_sep(raw) {
        Err(SpecAppError::MalformedUrl("Missing scheme"@))
    } else {
        match spec_scheme_of(scheme_token(raw)) {
            None => Err(SpecAppError::UnsupportedScheme(scheme_token(raw))),
            Some(scheme) => {
                if !spec_is_hierarchical(scheme) {
                    Ok(
                        SpecUrl {
                            scheme,
                            host: None,
                            port: None,
                            path: pre_query(raw),
                            query: query_part(raw),
                        },
                    )
                } else if host_port_token(raw).len() == 0 {
                    Err(SpecAppError::MissingHost)
                } else {
                    match port_token(raw) {
                        None => Ok(
                            SpecUrl {
                                scheme,
                                host: Some(host_port_token(raw)),
                                port: spec_default_port(scheme),
                                path: hier_path(raw),
                                query: query_part(raw),
                            },
                        ),
                        Some(pt) => match spec_port_number(pt) {
                            None => Err(SpecAppError::InvalidPort),
                            Some(p) => Ok(
                                SpecUrl {
                                    scheme,
                                    host: Some(host_token(raw)),
                                    port: Some(p),
                                    path: hier_path(raw),
                                    query: query_part(raw),
                                },
                            ),
                        },
                    }
                }
            },
        }
    }
}

/// Law: any input in which `:` never occurs is rejected as malformed, before
/// any scheme-specific rule applies.
pub proof fn lemma_missing_separator_is_malformed(raw: Seq<char>)
    requires
        forall|i: int| 0 <= i < raw.len() ==> raw[i] != ':',
    ensures
        spec_parse(raw) == Err::<SpecUrl, SpecAppError>(
            SpecAppError::MalformedUrl("Missing scheme"@),
        ),
{
    crate::text::lemma_first_index_of(raw, ':');
}

/// Law: any input whose scheme token — the exact substring before the first
/// `:` — denotes no supported scheme is rejected carrying that token.
pub proof fn lemma_unknown_scheme_is_rejected(raw: Seq<char>)
    requires
        has_scheme_sep(raw),
        spec_scheme_of(scheme_token(raw)) is None,
    ensures
        spec_parse(raw) == Err::<SpecUrl, SpecAppError>(
            SpecAppError::UnsupportedScheme(scheme_token(raw)),
        ),
{
}

/// Law: any hierarchical URL whose authority carries a port substring that
/// is not an unsigned 16-bit decimal number — non-numeric or over 65535 — is
/// rejected as an invalid port.
pub proof fn lemma_invalid_port_is_rejected(raw: Seq<char>)
    requires
        has_scheme_sep(raw),
        spec_scheme_of(scheme_token(raw)) matches Some(s) && spec_is_hierarchical(s),
        host_port_token(raw).len() > 0,
        port_token(raw) matches Some(pt) && spec_port_number(pt) is None,
    ensures
        spec_parse(raw) == Err::<SpecUrl, SpecAppError>(SpecAppError::InvalidPort),
{
}

/// Law: any hierarchical URL whose authority is empty is rejected for its
/// missing host, whatever its path or query.
pub proof fn lemma_empty_authority_is_rejected(raw: Seq<char>)
    requires
        has_scheme_sep(raw),
        spec_scheme_of(scheme_token(raw)) matches Some(s) && spec_is_hierarchical(s),
        host_port_token(raw).len() == 0,
    ensures
        spec_parse(raw) == Err::<SpecUrl, SpecAppError>(SpecAppError::MissingHost),
{
}

/// Law: whenever parsing succeeds, the host is present exactly for
/// hierarchical schemes, a port is only ever present for hierarchical
/// schemes, and a hierarchical scheme with a conventional default port is
/// never left without one.
pub proof fn lemma_success_invariant(raw: Seq<char>)
    ensures
        spec_parse(raw) matches Ok(u) ==> {
            &&& u.host is Some <==> spec_is_hierarchical(u.scheme)
            &&& u.port is Some ==> spec_is_hierarchical(u.scheme)
            &&& spec_is_hierarchical(u.scheme) && spec_default_port(u.scheme) is Some
                ==> u.port is Some
        },
{
}

impl Url {
    /// Decomposes a raw URL string into scheme, host, port, path and query,
    /// exactly as `spec_parse` describes, or fails with the specific error of
    /// the first stage that rejects it.
    pub fn parse(url: &str) -> (r: Result<Self, AppError>)
        ensures
            match r {
                Ok(u) => spec_parse(url@) matches Ok(su) && u@ == su,
                Err(e) => spec_parse(url@) matches Err(se) && e@ == se,
            },
    {
        let n = url.unicode_len();
        let ci = find_char(url, ':');
        if ci == n {
            return Err(AppError::MalformedUrl("Missing scheme".to_owned()));
        }
        let token = url.substring_char(0, ci);
        let after = url.substring_char(ci + 1, n);
        let scheme = match Scheme::parse(token) {
            Ok(s) => s,
            Err(e) => {
                return Err(e);
            },
        };
        let an = after.unicode_len();
        let body = if an >= 2 && after.get_char(0) == '/' && after.get_char(1) == '/' {
            after.substring_char(2, an)
        } else {
            after
        };
        proof {
            assert(body@ == url_body(url@));
        }
        let bn = body.unicode_len();
        let qi = find_char(body, '?');
        let before_query = body.substring_char(0, qi);
        let query: Option<String> = if qi < bn {
            Some(body.substring_char(qi + 1, bn).to_owned())
        } else {
            None
        };
        if scheme.is_hierarchical() {
            let rn = before_query.unicode_len();
            let si = find_char(before_query, '/');
            let host_port = before_query.substring_char(0, si);
            let path: String = if si < rn {
                before_query.substring_char(si, rn).to_owned()
            } else {
                "/".to_owned()
            };
            if host_port.unicode_len() == 0 {
                return Err(AppError::MissingHost);
            }
            let hn = host_port.unicode_len();
            let hi = find_char(host_port, ':');
            if hi < hn {
                let port_str = host_port.substring_char(hi + 1, hn);
                match parse_port(port_str) {
                    None => Err(AppError::InvalidPort),
                    Some(p) => {
                        let host = host_port.substring_char(0, hi).to_owned();
                        Ok(Url { scheme, host: Some(host), port: Some(p), path, query })
                    },
                }
            } else {
                Ok(
                    Url {
                        scheme,
                        host: Some(host_port.to_owned()),
                        port: scheme.default_port(),
                        path,
                        query,
                    },
                )
            }
        } else {
            Ok(Url { scheme, host: None, port: None, path: before_query.to_owned(), query })
        }
    }
}

} // verus!
