use netscan::ftp::{ftp_step, FtpCommand, FtpError, FtpOutcome, FtpState};
use netscan::webdav::{
    basic_auth_token, build_propfind_request, classify_webdav_response, join_url,
    parse_webdav_url, WebdavError, WebdavVerdict,
};

#[test]
fn ftp_greeting_starts_the_login() {
    let r = ftp_step(FtpState::AwaitBanner, "220 Welcome\r\n", false);
    assert_eq!(
        r,
        FtpOutcome::Continue(FtpState::AwaitUserReply, FtpCommand::User)
    );
}

#[test]
fn ftp_bad_greeting_fails_the_test() {
    let r = ftp_step(FtpState::AwaitBanner, "421 Too many users\r\n", false);
    assert_eq!(r, FtpOutcome::Failure(FtpError::Banner));
}

#[test]
fn ftp_user_reply_always_leads_to_pass() {
    let r = ftp_step(FtpState::AwaitUserReply, "331 Password required\r\n", true);
    assert_eq!(
        r,
        FtpOutcome::Continue(FtpState::AwaitPassReply, FtpCommand::Pass)
    );
}

#[test]
fn ftp_login_without_path_succeeds() {
    let r = ftp_step(FtpState::AwaitPassReply, "230 Logged in\r\n", false);
    assert_eq!(r, FtpOutcome::Success);
}

#[test]
fn ftp_login_with_path_changes_directory() {
    let r = ftp_step(FtpState::AwaitPassReply, "230 Logged in\r\n", true);
    assert_eq!(
        r,
        FtpOutcome::Continue(FtpState::AwaitCwdReply, FtpCommand::Cwd)
    );
}

#[test]
fn ftp_rejected_login_fails_the_test() {
    let r = ftp_step(FtpState::AwaitPassReply, "530 Login incorrect\r\n", true);
    assert_eq!(r, FtpOutcome::Failure(FtpError::Auth));
}

#[test]
fn ftp_directory_change_decides_the_end() {
    assert_eq!(
        ftp_step(FtpState::AwaitCwdReply, "250 Okay\r\n", true),
        FtpOutcome::Success
    );
    assert_eq!(
        ftp_step(FtpState::AwaitCwdReply, "550 No such directory\r\n", true),
        FtpOutcome::Failure(FtpError::Path)
    );
}

#[test]
fn join_trims_slashes_between_url_and_path() {
    assert_eq!(
        join_url("http://h:8080/", Some("/dav/x")).as_str(),
        "http://h:8080/dav/x"
    );
    assert_eq!(join_url("http://h", Some("d")).as_str(), "http://h/d");
    assert_eq!(join_url("http://h/", None).as_str(), "http://h/");
}

#[test]
fn http_url_splits_with_default_port() {
    let t = parse_webdav_url("http://example.com/dav/x").expect("a valid URL");
    assert!(!t.https);
    assert_eq!(t.host_port.as_str(), "example.com:80");
    assert_eq!(t.request_path.as_str(), "/dav/x");
}

#[test]
fn https_url_keeps_its_port() {
    let t = parse_webdav_url("https://example.com:8443").expect("a valid URL");
    assert!(t.https);
    assert_eq!(t.host_port.as_str(), "example.com:8443");
    assert_eq!(t.request_path.as_str(), "/");
}

#[test]
fn https_url_without_port_gets_443() {
    let t = parse_webdav_url("https://example.com/x").expect("a valid URL");
    assert!(t.https);
    assert_eq!(t.host_port.as_str(), "example.com:443");
    assert_eq!(t.request_path.as_str(), "/x");
}

#[test]
fn other_schemes_are_invalid() {
    assert!(matches!(
        parse_webdav_url("ftp://example.com"),
        Err(WebdavError::InvalidUrl)
    ));
    assert!(matches!(
        parse_webdav_url("example.com"),
        Err(WebdavError::InvalidUrl)
    ));
}

#[test]
fn replies_classify_by_status_mention() {
    assert_eq!(
        classify_webdav_response("HTTP/1.1 207 Multi-Status\r\n"),
        WebdavVerdict::Success
    );
    assert_eq!(
        classify_webdav_response("HTTP/1.1 200 OK\r\n"),
        WebdavVerdict::Success
    );
    assert_eq!(
        classify_webdav_response("HTTP/1.1 401 Unauthorized\r\n"),
        WebdavVerdict::AuthFailed
    );
    assert_eq!(
        classify_webdav_response("HTTP/1.1 403 Forbidden\r\n"),
        WebdavVerdict::AuthFailed
    );
    assert_eq!(
        classify_webdav_response("HTTP/1.1 500 Server Error\r\n"),
        WebdavVerdict::Unexpected
    );
}

#[test]
fn basic_credentials_encode_as_base64() {
    let token = basic_auth_token("user", "pass").expect("ordinary credentials encode");
    assert_eq!(token.as_str(), "dXNlcjpwYXNz");
    let empty = basic_auth_token("", "").expect("ordinary credentials encode");
    assert_eq!(empty.as_str(), "Og==");
}

#[test]
fn propfind_request_is_assembled_exactly() {
    let r = build_propfind_request("/dav/x", "example.com:80", "dXNlcjpwYXNz");
    let expected = "PROPFIND /dav/x HTTP/1.1\r\nHost: example.com:80\r\n\
Authorization: Basic dXNlcjpwYXNz\r\nDepth: 0\r\nContent-Length: 0\r\n\
Connection: close\r\n\r\n";
    assert_eq!(r.as_str(), expected);
}
