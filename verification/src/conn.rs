//! What a connection reports about itself, the choice of the connection kind
//! from a DSN, and the host part of a storage URL.
use vstd::prelude::*;

use crate::error::DriverError;
use crate::text::{chars_of, extend_chars, string_of};

verus! {

/// What a connection reports about its endpoint and session.
pub struct ConnectionInfo {
    pub handler: String,
    pub host: String,
    pub port: u16,
    pub user: String,
    pub database: Option<String>,
    pub warehouse: Option<String>,
}

pub open spec fn seq_rest_api() -> Seq<char> {
    seq!['R', 'e', 's', 't', 'A', 'P', 'I']
}

impl ConnectionInfo {
    /// What a connection over the HTTP query API reports: handler `RestAPI`, the client's
    /// endpoint and user, and the session's current database and warehouse.
    pub fn rest_api(
        host: String,
        port: u16,
        user: String,
        database: Option<String>,
        warehouse: Option<String>,
    ) -> (i: ConnectionInfo)
        ensures
            i.handler@ == seq_rest_api(),
            i.host == host,
            i.port == port,
            i.user == user,
            i.database == database,
            i.warehouse == warehouse,
    {
        let h = ['R', 'e', 's', 't', 'A', 'P', 'I'];
        assert(h@ == seq_rest_api());
        ConnectionInfo { handler: string_of(&h), host, port, user, database, warehouse }
    }
}

/// The scheme of `input` as `url::Url::parse` reads it, or `None` where it rejects `input`.
pub uninterp spec fn url_scheme(input: Seq<char>) -> Option<Seq<char>>;

/// The host of `input` as `url::Url::parse` and `Url::host_str` read it (`Some(None)` for a
/// URL without a host), or `None` where `Url::parse` rejects `input`.
pub uninterp spec fn url_host(input: Seq<char>) -> Option<Option<Seq<char>>>;

/// The message (`Display`) of the `url::ParseError` with which `url::Url::parse` rejects
/// `input`.
pub uninterp spec fn url_error_text(input: Seq<char>) -> Seq<char>;

/// Calls `url::Url::parse` and then `Url::scheme`; a rejection is handed back as the
/// error's message. The contract claims that success, the scheme and the message are
/// functions of the input; what the URL parser accepts is not stated.
#[verifier::external_body]
fn parse_url_scheme(input: &str) -> (r: Result<String, String>)
    ensures
        match r {
            Ok(s) => url_scheme(input@) == Some(s@),
            Err(m) => url_scheme(input@) is None && m@ == url_error_text(input@),
        },
{
    match url::Url::parse(input) {
        Ok(u) => Ok(u.scheme().to_string()),
        Err(e) => Err(e.to_string()),
    }
}

/// Calls `url::Url::parse` and then `Url::host_str`; a rejection is handed back as the error's
/// message. The contract claims that success, the host and the message are functions of the
/// input; what the URL parser accepts is not stated.
#[verifier::external_body]
fn parse_url_host(input: &str) -> (r: Result<Option<String>, String>)
    ensures
        match r {
            Ok(Some(h)) => url_host(input@) == Some(Some(h@)),
            Ok(None) => url_host(input@) == Some(None::<Seq<char>>),
            Err(m) => url_host(input@) is None && m@ == url_error_text(input@),
        },
{
    match url::Url::parse(input) {
        Ok(u) => Ok(u.host_str().map(|h| h.to_string())),
        Err(e) => Err(e.to_string()),
    }
}

/// The kind of connection that a DSN asks for.
#[derive(Clone, Copy, PartialEq, Eq, Structural, Debug)]
pub enum ConnectionKind {
    /// The HTTP query API (`databend`, `databend+http`, `databend+https`).
    RestApi,
}

pub open spec fn seq_databend() -> Seq<char> {
    seq!['d', 'a', 't', 'a', 'b', 'e', 'n', 'd']
}

pub open spec fn seq_http_suffix() -> Seq<char> {
    seq!['+', 'h', 't', 't', 'p']
}

pub open spec fn seq_https_suffix() -> Seq<char> {
    seq!['+', 'h', 't', 't', 'p', 's']
}

/// The schemes served by the HTTP query API.
pub open spec fn is_rest_scheme(s: Seq<char>) -> bool {
    s == seq_databend() || s == seq_databend() + seq_http_suffix() || s == seq_databend()
        + seq_https_suffix()
}

pub open spec fn unsupported_scheme_message(s: Seq<char>) -> Seq<char> {
    seq!['U', 'n', 's', 'u', 'p', 'p', 'o', 'r', 't', 'e', 'd', ' ', 's', 'c', 'h', 'e', 'm', 'e', ':', ' '] + s
}

fn eq_chars(a: &[char], b: &[char]) -> (r: bool)
    ensures
        r == (a@ == b@),
{
    if a.len() != b.len() {
        return false;
    }
    let mut k: usize = 0;
    while k < a.len()
        invariant
            k <= a@.len(),
            a@.len() == b@.len(),
            forall|m: int| 0 <= m < k ==> a@[m] == b@[m],
        decreases a.len() - k,
    {
        if a[k] != b[k] {
            return false;
        }
        k = k + 1;
    }
    assert(a@ =~= b@);
    true
}

/// The connection kind that `dsn` asks for: a DSN that the URL parser rejects is a parsing
/// error with the parser's message (`url_error_text`); the schemes `databend`, `databend+http` and
/// `databend+https` ask for the HTTP query API; any other scheme is a parsing error
/// `Unsupported scheme: <scheme>`.
pub fn connection_kind(dsn: &str) -> (r: Result<ConnectionKind, DriverError>)
    ensures
        url_scheme(dsn@) is None ==> (r matches Err(DriverError::Parsing(m)) && m@ == url_error_text(
            dsn@,
        )),
        url_scheme(dsn@) matches Some(s) ==> (is_rest_scheme(s) ==> r == Ok::<
            ConnectionKind,
            DriverError,
        >(ConnectionKind::RestApi)),
        url_scheme(dsn@) matches Some(s) ==> (!is_rest_scheme(s) ==> (r matches Err(
            DriverError::Parsing(m),
        ) && m@ == unsupported_scheme_message(s))),
{
    match parse_url_scheme(dsn) {
        Err(m) => Err(DriverError::Parsing(m)),
        Ok(scheme) => {
            let s = chars_of(scheme.as_str());
            let d = ['d', 'a', 't', 'a', 'b', 'e', 'n', 'd'];
            let dh = ['d', 'a', 't', 'a', 'b', 'e', 'n', 'd', '+', 'h', 't', 't', 'p'];
            let dhs = ['d', 'a', 't', 'a', 'b', 'e', 'n', 'd', '+', 'h', 't', 't', 'p', 's'];
            assert(d@ == seq_databend());
            assert(dh@ =~= seq_databend() + seq_http_suffix());
            assert(dhs@ =~= seq_databend() + seq_https_suffix());
            if eq_chars(s.as_slice(), &d) || eq_chars(s.as_slice(), &dh) || eq_chars(
                s.as_slice(),
                &dhs,
            ) {
                Ok(ConnectionKind::RestApi)
            } else {
                let prefix = [
                    'U', 'n', 's', 'u', 'p', 'p', 'o', 'r', 't', 'e', 'd', ' ', 's', 'c', 'h', 'e',
                    'm', 'e', ':', ' ',
                ];
                let mut msg: Vec<char> = Vec::new();
                extend_chars(&mut msg, &prefix);
                extend_chars(&mut msg, s.as_slice());
                assert(msg@ =~= unsupported_scheme_message(s@));
                Err(DriverError::Parsing(string_of(msg.as_slice())))
            }
        },
    }
}

pub open spec fn seq_unknown() -> Seq<char> {
    seq!['u', 'n', 'k', 'n', 'o', 'w', 'n']
}

/// The host named by a storage URL, for reporting: the URL's host, or `unknown` for a URL
/// without one; a URL that the parser rejects is a parsing error with the parser's message.
pub fn storage_host(url: &str) -> (r: Result<String, DriverError>)
    ensures
        url_host(url@) is None ==> (r matches Err(DriverError::Parsing(m)) && m@ == url_error_text(
            url@,
        )),
        url_host(url@) matches Some(Some(h)) ==> (r matches Ok(s) && s@ == h),
        url_host(url@) == Some(None::<Seq<char>>) ==> (r matches Ok(s) && s@ == seq_unknown()),
{
    match parse_url_host(url) {
        Err(m) => Err(DriverError::Parsing(m)),
        Ok(Some(h)) => Ok(h),
        Ok(None) => {
            let u = ['u', 'n', 'k', 'n', 'o', 'w', 'n'];
            assert(u@ == seq_unknown());
            Ok(string_of(&u))
        },
    }
}

} // verus!
