//! Choosing how to reach a remote: the scheme of its URL selects the backend,
//! and each scheme admits only the URL parts that its backend uses.
//! The connection itself is made by the caller, on the plan returned here.

use vstd::prelude::*;

use bstr::ByteSlice;

use crate::non_io_types::{self, IoErrorKind};

verus! {

#[verifier::external_type_specification]
#[verifier::external_body]
pub struct ExUtf8Error(bstr::Utf8Error);

/// The text that UTF-8 bytes encode, or `None` where they are not valid UTF-8.
pub uninterp spec fn utf8_text(b: Seq<u8>) -> Option<Seq<char>>;

/// Relies on bstr's `ByteSlice::to_str`: the bytes as text where they are valid
/// UTF-8, else an error that says where the first invalid byte is.
#[verifier::external_body]
fn path_to_str(path: &[u8]) -> (r: Result<String, bstr::Utf8Error>)
    ensures
        match r {
            Ok(s) => utf8_text(path@) == Some(s@),
            Err(_) => utf8_text(path@) is None,
        },
{
    path.to_str().map(|s| s.to_string())
}

/// The scheme of a URL.
#[derive(Debug, Clone, PartialEq, Eq, Hash)]
pub enum Scheme {
    File,
    Git,
    Ssh,
    Http,
    Https,
    /// Any other scheme, by its name.
    Ext(String),
}

impl Scheme {
    /// The same scheme, as a new value.
    pub fn copied(&self) -> (r: Scheme)
        ensures
            r == *self,
    {
        match self {
            Scheme::File => Scheme::File,
            Scheme::Git => Scheme::Git,
            Scheme::Ssh => Scheme::Ssh,
            Scheme::Http => Scheme::Http,
            Scheme::Https => Scheme::Https,
            Scheme::Ext(name) => Scheme::Ext(name.clone()),
        }
    }
}

/// A parsed URL.
#[derive(Debug, Clone, PartialEq, Eq)]
pub struct Url {
    pub scheme: Scheme,
    pub user: Option<String>,
    pub host: Option<String>,
    pub port: Option<u16>,
    pub path: Vec<u8>,
    pub query: Option<String>,
    /// The URL as written.
    pub text: Vec<u8>,
}

/// Whether the URL holds parts that the backend of its scheme would not use:
/// a file URL only a path, a git URL no user and no query, an ssh URL no query.
pub open spec fn has_unused_tokens(url: Url) -> bool {
    match url.scheme {
        Scheme::File => url.user is Some || url.host is Some || url.port is Some || url.query is Some,
        Scheme::Git => url.user is Some || url.query is Some,
        Scheme::Ssh => url.query is Some,
        _ => false,
    }
}

/// How the connection is to be made.
#[allow(inconsistent_fields)]
#[derive(Debug, Clone, PartialEq, Eq)]
pub enum Plan {
    /// A socket to the git daemon on `host`.
    Git { host: String, port: Option<u16>, path: String },
    /// A session of the HTTP backend for the whole URL.
    Http { url: Vec<u8> },
    /// A local process: the file transport, or the ssh program.
    LocalProcess {
        scheme: Scheme,
        user: Option<String>,
        host: Option<String>,
        port: Option<u16>,
        path: String,
    },
}

/// The errors of a connection.
#[derive(Debug, Clone, PartialEq, Eq)]
pub enum GitConnectError {
    /// The socket failed.
    Connection(IoErrorKind),
    /// The host cannot be named in the request.
    VirtualHostInvalid { host: String },
}

impl GitConnectError {
    /// Only the socket's failure can be transient, as its I/O error says.
    pub open spec fn spurious(&self) -> bool {
        match self {
            GitConnectError::Connection(kind) => kind.spurious(),
            _ => false,
        }
    }

    /// Whether this failure is worth retrying.
    pub fn is_spurious(&self) -> (r: bool)
        ensures
            r == self.spurious(),
    {
        match self {
            GitConnectError::Connection(kind) => kind.is_spurious(),
            _ => false,
        }
    }
}

/// The cause of a failed connection, as the backend reported it.
#[derive(Debug, Clone, PartialEq, Eq)]
pub enum ConnectionCause {
    /// The git daemon backend failed.
    Git(GitConnectError),
    /// A backend failed with an error of the client.
    Client(non_io_types::Error),
    /// A backend failed in a way that is not known here, described.
    Unknown(String),
}

/// The error of planning or making a connection.
#[derive(Debug, PartialEq, Eq)]
pub enum Error {
    /// The URL could not be parsed, for the given reason.
    Url(String),
    /// The path of the URL is not valid UTF-8.
    PathConversion(bstr::Utf8Error),
    /// The backend could not connect.
    Connection(ConnectionCause),
    /// The URL holds parts that the scheme's backend would not use.
    UnsupportedUrlTokens { url: Vec<u8>, scheme: Scheme },
    /// No backend serves the scheme.
    UnsupportedScheme(Scheme),
    /// The scheme needs the HTTP backend, which is not available.
    CompiledWithoutHttp(Scheme),
}

impl Error {
    /// A failed connection is classified by its cause, where the cause is known;
    /// every other error, and an unknown cause, is permanent.
    pub open spec fn spurious(&self) -> bool {
        match self {
            Error::Connection(ConnectionCause::Git(err)) => err.spurious(),
            Error::Connection(ConnectionCause::Client(err)) => err.spurious(),
            _ => false,
        }
    }

    /// Whether this failure is worth retrying.
    pub fn is_spurious(&self) -> (r: bool)
        ensures
            r == self.spurious(),
    {
        match self {
            Error::Connection(ConnectionCause::Git(err)) => err.is_spurious(),
            Error::Connection(ConnectionCause::Client(err)) => err.is_spurious(),
            _ => false,
        }
    }
}

/// The text of a path, and the parts of `url` carried over.
pub open spec fn plan_fits(plan: Plan, url: Url, path: Seq<char>) -> bool {
    match url.scheme {
        Scheme::Git => plan == Plan::Git { host: url.host->0, port: url.port, path: plan->Git_path }
            && plan->Git_path@ == path,
        Scheme::Http | Scheme::Https => plan matches Plan::Http { url: u } && u@ == url.text@,
        _ => plan == Plan::LocalProcess {
            scheme: url.scheme,
            user: url.user,
            host: url.host,
            port: url.port,
            path: plan->LocalProcess_path,
        } && plan->LocalProcess_path@ == path,
    }
}

/// What planning a connection to `url` gives.
pub open spec fn connect_outcome(url: Url, http_available: bool, r: Result<Plan, Error>) -> bool {
    if url.scheme is Ext {
        r == Err::<Plan, Error>(Error::UnsupportedScheme(url.scheme))
    } else if has_unused_tokens(url) {
        r matches Err(Error::UnsupportedUrlTokens { url: u, scheme }) && u@ == url.text@ && scheme
            == url.scheme
    } else if url.scheme is Http || url.scheme is Https {
        if http_available {
            r matches Ok(plan) && plan_fits(plan, url, Seq::empty())
        } else {
            r == Err::<Plan, Error>(Error::CompiledWithoutHttp(url.scheme))
        }
    } else if url.scheme is Git && url.host is None {
        r matches Err(Error::Url(_))
    } else {
        match utf8_text(url.path@) {
            None => r matches Err(Error::PathConversion(_)),
            Some(path) => r matches Ok(plan) && plan_fits(plan, url, path),
        }
    }
}

fn copy_bytes(v: &Vec<u8>) -> (r: Vec<u8>)
    ensures
        r@ == v@,
{
    let r = crate::capabilities::copy_range(v.as_slice(), 0, v.len());
    assert(v@.subrange(0, v@.len() as int) =~= v@);
    r
}

fn copy_string(s: &Option<String>) -> (r: Option<String>)
    ensures
        r == *s,
{
    match s {
        Some(x) => Some(x.clone()),
        None => None,
    }
}

/// Checks `url` against its scheme and chooses the backend. A scheme that needs
/// the HTTP backend fails where `http_available` is false; a git URL without a
/// host is no valid URL.
pub fn plan_connection(url: &Url, http_available: bool) -> (r: Result<Plan, Error>)
    ensures
        connect_outcome(*url, http_available, r),
{
    match &url.scheme {
        Scheme::Ext(_) => {
            return Err(Error::UnsupportedScheme(url.scheme.copied()));
        },
        Scheme::File => {
            if url.user.is_some() || url.host.is_some() || url.port.is_some()
                || url.query.is_some() {
                return Err(
                    Error::UnsupportedUrlTokens {
                        url: copy_bytes(&url.text),
                        scheme: url.scheme.copied(),
                    },
                );
            }
        },
        Scheme::Git => {
            if url.user.is_some() || url.query.is_some() {
                return Err(
                    Error::UnsupportedUrlTokens {
                        url: copy_bytes(&url.text),
                        scheme: url.scheme.copied(),
                    },
                );
            }
        },
        Scheme::Ssh => {
            if url.query.is_some() {
                return Err(
                    Error::UnsupportedUrlTokens {
                        url: copy_bytes(&url.text),
                        scheme: url.scheme.copied(),
                    },
                );
            }
        },
        Scheme::Http | Scheme::Https => {
            if !http_available {
                return Err(Error::CompiledWithoutHttp(url.scheme.copied()));
            }
            let u = copy_bytes(&url.text);
            return Ok(Plan::Http { url: u });
        },
    }
    if url.host.is_none() {
        if let Scheme::Git = &url.scheme {
            return Err(Error::Url("a git URL needs a host".to_string()));
        }
    }
    let path = match path_to_str(url.path.as_slice()) {
        Ok(p) => p,
        Err(e) => {
            return Err(Error::PathConversion(e));
        },
    };
    match (&url.scheme, &url.host) {
        (Scheme::Git, Some(host)) => Ok(Plan::Git { host: host.clone(), port: url.port, path }),
        _ => Ok(
            Plan::LocalProcess {
                scheme: url.scheme.copied(),
                user: copy_string(&url.user),
                host: copy_string(&url.host),
                port: url.port,
                path,
            },
        ),
    }
}

/// A git URL that carries a user or a query is refused with both named, whatever
/// else it holds: the extra parts are never dropped silently.
pub proof fn lemma_git_url_tokens_refused(url: Url, http_available: bool, r: Result<Plan, Error>)
    requires
        url.scheme is Git,
        url.user is Some || url.query is Some,
        connect_outcome(url, http_available, r),
    ensures
        r matches Err(Error::UnsupportedUrlTokens { url: u, scheme }) && u@ == url.text@
            && scheme is Git,
{
}

/// Without the HTTP backend, every http or https URL is refused as such, and never
/// as a failed connection.
pub proof fn lemma_http_without_backend(url: Url, r: Result<Plan, Error>)
    requires
        url.scheme is Http || url.scheme is Https,
        connect_outcome(url, false, r),
    ensures
        r == Err::<Plan, Error>(Error::CompiledWithoutHttp(url.scheme)),
        !(r matches Err(Error::Connection(_))),
{
}

/// I/O failures by timeout or reset are worth retrying, a refused identity is not,
/// and a cause wrapped once, in a failed connection or in an HTTP transfer, keeps
/// its classification.
pub proof fn lemma_spurious_classification(reason: &'static str, cause: non_io_types::Error, kind: IoErrorKind)
    ensures
        non_io_types::Error::Io(IoErrorKind::TimedOut).spurious(),
        non_io_types::Error::Io(IoErrorKind::ConnectionReset).spurious(),
        !non_io_types::Error::AuthenticationRefused(reason).spurious(),
        Error::Connection(ConnectionCause::Client(cause)).spurious() == cause.spurious(),
        Error::Connection(ConnectionCause::Git(GitConnectError::Connection(kind))).spurious()
            == kind.spurious(),
        non_io_types::Error::Http(non_io_types::HttpError::PostBody(kind)).spurious() == kind.spurious(),
{
}

} // verus!
