use git_transport::connect::{
    plan_connection, ConnectionCause, Error, GitConnectError, Plan, Scheme, Url,
};
use git_transport::non_io_types::{self, HttpError, IoErrorKind};

fn url(scheme: Scheme, host: Option<&str>, path: &[u8], text: &str) -> Url {
    Url {
        scheme,
        user: None,
        host: host.map(|h| h.to_string()),
        port: None,
        path: path.to_vec(),
        query: None,
        text: text.as_bytes().to_vec(),
    }
}

#[test]
fn git_url_with_user_is_refused() {
    let mut u = url(Scheme::Git, Some("host"), b"/repo.git", "git://me@host/repo.git");
    u.user = Some("me".to_string());
    assert_eq!(
        plan_connection(&u, true),
        Err(Error::UnsupportedUrlTokens { url: b"git://me@host/repo.git".to_vec(), scheme: Scheme::Git })
    );
}

#[test]
fn git_url_with_query_is_refused() {
    let mut u = url(Scheme::Git, Some("host"), b"/repo.git", "git://host/repo.git?x=1");
    u.query = Some("x=1".to_string());
    assert!(matches!(
        plan_connection(&u, false),
        Err(Error::UnsupportedUrlTokens { scheme: Scheme::Git, .. })
    ));
}

#[test]
fn git_url_plans_daemon_connection() {
    let mut u = url(Scheme::Git, Some("host"), b"/repo.git", "git://host:9418/repo.git");
    u.port = Some(9418);
    assert_eq!(
        plan_connection(&u, false),
        Ok(Plan::Git { host: "host".to_string(), port: Some(9418), path: "/repo.git".to_string() })
    );
}

#[test]
fn https_without_backend_is_compiled_out() {
    let u = url(Scheme::Https, Some("host"), b"/repo.git", "https://host/repo.git");
    let err = plan_connection(&u, false).unwrap_err();
    assert_eq!(err, Error::CompiledWithoutHttp(Scheme::Https));
    assert!(!matches!(err, Error::Connection(_)));
    assert!(!err.is_spurious());
}

#[test]
fn https_with_backend_plans_session() {
    let u = url(Scheme::Https, Some("host"), b"/repo.git", "https://host/repo.git");
    assert_eq!(
        plan_connection(&u, true),
        Ok(Plan::Http { url: b"https://host/repo.git".to_vec() })
    );
}

#[test]
fn file_url_with_host_is_refused() {
    let u = url(Scheme::File, Some("host"), b"/repo", "file://host/repo");
    assert!(matches!(
        plan_connection(&u, true),
        Err(Error::UnsupportedUrlTokens { scheme: Scheme::File, .. })
    ));
}

#[test]
fn file_and_ssh_urls_plan_local_process() {
    let u = url(Scheme::File, None, b"/srv/repo", "file:///srv/repo");
    assert_eq!(
        plan_connection(&u, false),
        Ok(Plan::LocalProcess {
            scheme: Scheme::File,
            user: None,
            host: None,
            port: None,
            path: "/srv/repo".to_string()
        })
    );
    let mut s = url(Scheme::Ssh, Some("example.com"), b"repo.git", "ssh://git@example.com/repo.git");
    s.user = Some("git".to_string());
    assert_eq!(
        plan_connection(&s, false),
        Ok(Plan::LocalProcess {
            scheme: Scheme::Ssh,
            user: Some("git".to_string()),
            host: Some("example.com".to_string()),
            port: None,
            path: "repo.git".to_string()
        })
    );
}

#[test]
fn invalid_utf8_path_is_refused() {
    let u = url(Scheme::File, None, &[b'/', 0xff, 0xfe], "file:///??");
    assert!(matches!(plan_connection(&u, false), Err(Error::PathConversion(_))));
}

#[test]
fn unknown_scheme_is_unsupported() {
    let u = url(Scheme::Ext("rad".to_string()), Some("h"), b"/x", "rad://h/x");
    assert_eq!(
        plan_connection(&u, true),
        Err(Error::UnsupportedScheme(Scheme::Ext("rad".to_string())))
    );
}

#[test]
fn io_errors_by_timeout_or_reset_are_spurious() {
    assert!(non_io_types::Error::Io(IoErrorKind::TimedOut).is_spurious());
    assert!(non_io_types::Error::Io(IoErrorKind::ConnectionReset).is_spurious());
    assert!(!non_io_types::Error::Io(IoErrorKind::PermissionDenied).is_spurious());
    assert!(!non_io_types::Error::AuthenticationRefused("no such identity").is_spurious());
    assert!(!non_io_types::Error::ExpectedDataLine.is_spurious());
}

#[test]
fn wrapped_causes_keep_their_classification() {
    let spurious = Error::Connection(ConnectionCause::Client(non_io_types::Error::Io(IoErrorKind::TimedOut)));
    assert!(spurious.is_spurious());
    let git = Error::Connection(ConnectionCause::Git(GitConnectError::Connection(IoErrorKind::ConnectionAborted)));
    assert!(git.is_spurious());
    let host = Error::Connection(ConnectionCause::Git(GitConnectError::VirtualHostInvalid { host: "h".into() }));
    assert!(!host.is_spurious());
    let unknown = Error::Connection(ConnectionCause::Unknown("boom".to_string()));
    assert!(!unknown.is_spurious());
    assert!(non_io_types::Error::Http(HttpError::PostBody(IoErrorKind::BrokenPipe)).is_spurious());
    assert!(!non_io_types::Error::Http(HttpError::Detail { description: "404".into() }).is_spurious());
    assert!(!Error::UnsupportedScheme(Scheme::Git).is_spurious());
}

#[test]
fn git_url_without_host_is_invalid() {
    let u = url(Scheme::Git, None, b"/repo.git", "git:///repo.git");
    assert!(matches!(plan_connection(&u, true), Err(Error::Url(_))));
}
