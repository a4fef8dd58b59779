//! The WebDAV connection test: URL handling, the PROPFIND request and the
//! reading of its reply.
//!
//! The application owns the socket; this module joins the given URL and
//! path, splits the URL into authority and request path with the default
//! port filled in, builds the Basic credentials and the PROPFIND request,
//! and classifies the reply text. A reply mentioning 207 or 200 passes,
//! one mentioning 401 or 403 is an authentication failure, anything else
//! is unexpected.

use base64::Engine;
use vstd::prelude::*;
use vstd::string::StringSliceAdditionalSpecFns;
use vstd::utf8::encode_utf8;
use crate::text::{contains_seq, contains_sub, contains_char, first_char_at, has_char, starts_with, starts_with_str};

verus! {

/// A character sequence with every trailing `c` removed.
pub open spec fn trim_end_ch(s: Seq<char>, c: char) -> Seq<char>
    decreases s.len(),
{
    if s.len() > 0 && s.last() == c {
        trim_end_ch(s.drop_last(), c)
    } else {
        s
    }
}

/// A character sequence with every leading `c` removed.
pub open spec fn trim_start_ch(s: Seq<char>, c: char) -> Seq<char>
    decreases s.len(),
{
    if s.len() > 0 && s[0] == c {
        trim_start_ch(s.skip(1), c)
    } else {
        s
    }
}

/// Removes every trailing occurrence of `c`.
fn trim_end_char(s: &str, c: char) -> (r: String)
    ensures
        r@ == trim_end_ch(s@, c),
{
    let n = s.unicode_len();
    let mut cut: usize = n;
    proof {
        assert(s@.take(n as int) =~= s@);
    }
    loop
        invariant
            cut <= n,
            n == s@.len(),
            trim_end_ch(s@, c) == trim_end_ch(s@.take(cut as int), c),
        decreases cut,
    {
        if cut == 0 {
            let r = String::new();
            proof {
                assert(s@.take(0) =~= Seq::<char>::empty());
                assert(r@ =~= trim_end_ch(s@, c));
            }
            return r;
        }
        if s.get_char(cut - 1) != c {
            proof {
                assert(s@.take(cut as int).last() == s@[cut - 1]);
            }
            return s.substring_char(0, cut).to_owned();
        }
        proof {
            assert(s@.take(cut as int).last() == s@[cut - 1]);
            assert(s@.take(cut as int).drop_last() =~= s@.take(cut - 1));
        }
        cut = cut - 1;
    }
}

/// Removes every leading occurrence of `c`.
fn trim_start_char(s: &str, c: char) -> (r: String)
    ensures
        r@ == trim_start_ch(s@, c),
{
    let n = s.unicode_len();
    let mut from: usize = 0;
    proof {
        assert(s@.skip(0) =~= s@);
    }
    loop
        invariant
            from <= n,
            n == s@.len(),
            trim_start_ch(s@, c) == trim_start_ch(s@.skip(from as int), c),
        decreases n - from,
    {
        if from == n {
            let r = String::new();
            proof {
                assert(s@.skip(n as int) =~= Seq::<char>::empty());
                assert(r@ =~= trim_start_ch(s@, c));
            }
            return r;
        }
        if s.get_char(from) != c {
            proof {
                assert(s@.skip(from as int)[0] == s@[from as int]);
            }
            return s.substring_char(from, n).to_owned();
        }
        proof {
            assert(s@.skip(from as int)[0] == s@[from as int]);
            assert(s@.skip(from as int).skip(1) =~= s@.skip(from + 1));
        }
        from = from + 1;
    }
}

/// Joins a base URL and an optional path: the base loses its trailing
/// slashes, the path its leading ones, and one slash stands between them.
/// Without a path the URL passes unchanged.
pub fn join_url(url: &str, path: Option<&str>) -> (r: String)
    ensures
        path is Some ==> r@ == trim_end_ch(url@, '/') + seq!['/'] + trim_start_ch(path->0@, '/'),
        path is None ==> r@ == url@,
{
    match path {
        None => url.to_owned(),
        Some(p) => {
            let mut r = trim_end_char(url, '/');
            r.append("/");
            let tail = trim_start_char(p, '/');
            r.append(tail.as_str());
            proof {
                reveal_strlit("/");
                assert(r@ =~= trim_end_ch(url@, '/') + seq!['/'] + trim_start_ch(p@, '/'));
            }
            r
        },
    }
}

/// The position of the first `c` in `s`, or -1 when there is none.
pub open spec fn first_idx_of(s: Seq<char>, c: char) -> int
    decreases s.len(),
{
    if s.len() == 0 {
        -1
    } else if s[0] == c {
        0
    } else {
        let r = first_idx_of(s.skip(1), c);
        if r < 0 {
            -1
        } else {
            r + 1
        }
    }
}

/// A scan that stopped at `i` found the first occurrence: everything
/// before `i` differs from `c`, and either `i` is past the end (no
/// occurrence) or `s[i]` is `c`.
proof fn lemma_first_idx_of(s: Seq<char>, c: char, i: int)
    requires
        0 <= i <= s.len(),
        forall|j: int| 0 <= j < i ==> s[j] != c,
        i < s.len() ==> s[i] == c,
    ensures
        first_idx_of(s, c) == if i == s.len() {
            -1
        } else {
            i
        },
    decreases i,
{
    if i == 0 {
        if s.len() == 0 {
        } else {
            assert(s[0] == c);
        }
    } else {
        let t = s.skip(1);
        assert(forall|j: int| 0 <= j < i - 1 ==> t[j] != c);
        lemma_first_idx_of(t, c, i - 1);
    }
}

/// The authority part of what follows the scheme: everything before the
/// first slash.
pub open spec fn authority_raw(rest: Seq<char>) -> Seq<char> {
    let k = first_idx_of(rest, '/');
    if k < 0 {
        rest
    } else {
        rest.take(k)
    }
}

/// The authority with a port: as given when it names one, else with the
/// scheme's default port appended.
pub open spec fn webdav_host_port(rest: Seq<char>, https: bool) -> Seq<char> {
    let hp = authority_raw(rest);
    if has_char(hp, ':') {
        hp
    } else if https {
        hp + ":443"@
    } else {
        hp + ":80"@
    }
}

/// The request path of what follows the scheme: a slash followed by
/// everything after the first slash, or a bare slash when there is none.
pub open spec fn webdav_request_path(rest: Seq<char>) -> Seq<char> {
    let k = first_idx_of(rest, '/');
    if k < 0 {
        seq!['/']
    } else {
        seq!['/'] + rest.skip(k + 1)
    }
}

/// Where the connection test will connect, and what it will ask for.
pub struct WebdavTarget {
    /// Host and port, the default port filled in.
    pub host_port: String,
    /// The path of the PROPFIND request, always starting with a slash.
    pub request_path: String,
    /// Whether the URL named the https scheme.
    pub https: bool,
}

/// Why a URL was rejected.
#[derive(Debug, PartialEq, Eq, Structural)]
pub enum WebdavError {
    /// The URL names neither the http nor the https scheme.
    InvalidUrl,
}

/// Splits a URL into its connection target. A URL is accepted exactly
/// when it starts with `http://` or `https://`.
pub fn parse_webdav_url(url: &str) -> (r: Result<WebdavTarget, WebdavError>)
    ensures
        starts_with(url@, "http://"@) ==> r is Ok && !r->Ok_0.https && r->Ok_0.host_port@
            == webdav_host_port(url@.skip(7), false) && r->Ok_0.request_path@
            == webdav_request_path(url@.skip(7)),
        !starts_with(url@, "http://"@) && starts_with(url@, "https://"@) ==> r is Ok
            && r->Ok_0.https && r->Ok_0.host_port@ == webdav_host_port(url@.skip(8), true)
            && r->Ok_0.request_path@ == webdav_request_path(url@.skip(8)),
        !starts_with(url@, "http://"@) && !starts_with(url@, "https://"@) ==> r == Err::<
            WebdavTarget,
            WebdavError,
        >(WebdavError::InvalidUrl),
{
    proof {
        reveal_strlit("http://");
        reveal_strlit("https://");
        assert("http://"@.len() == 7);
        assert("https://"@.len() == 8);
    }
    let n = url.unicode_len();
    let is_http = starts_with_str(url, "http://");
    let is_https = starts_with_str(url, "https://");
    if !is_http && !is_https {
        return Err(WebdavError::InvalidUrl);
    }
    let scheme_len: usize = if is_http {
        7
    } else {
        8
    };
    let rest = url.substring_char(scheme_len, n);
    proof {
        assert(rest@ =~= url@.skip(scheme_len as int));
    }
    let m = rest.unicode_len();
    let k = first_char_at(rest, '/');
    proof {
        lemma_first_idx_of(rest@, '/', k as int);
    }
    let hp_raw: String = if k == m {
        rest.to_owned()
    } else {
        rest.substring_char(0, k).to_owned()
    };
    proof {
        assert(k < m ==> hp_raw@ =~= rest@.take(k as int));
        assert(hp_raw@ == authority_raw(rest@));
    }
    let mut request_path = String::from_str("/");
    if k < m {
        request_path.append(rest.substring_char(k + 1, m));
    }
    proof {
        reveal_strlit("/");
        assert(k < m ==> rest@.subrange(k + 1, m as int) =~= rest@.skip(k + 1));
        assert(request_path@ =~= webdav_request_path(rest@));
    }
    let host_port: String = if contains_char(hp_raw.as_str(), ':') {
        hp_raw
    } else {
        let mut h = hp_raw;
        if is_https {
            h.append(":443");
        } else {
            h.append(":80");
        }
        h
    };
    proof {
        assert(host_port@ == webdav_host_port(rest@, is_https));
        // The two schemes cannot both match: their fifth characters differ.
        if is_http && is_https {
            reveal_strlit("http://");
            reveal_strlit("https://");
            assert(url@.take(7)[4] == url@[4]);
            assert(url@.take(8)[4] == url@[4]);
            assert(false);
        }
    }
    Ok(WebdavTarget { host_port, request_path, https: is_https })
}

/// What the standard, padded base64 encoding of a byte sequence reads as.
pub uninterp spec fn b64_of(bytes: Seq<u8>) -> Seq<char>;

/// Relies on base64's `Engine::encode` with the standard alphabet and
/// padding: the encoding is a function of the input bytes alone, and its
/// length is four characters for every started group of three bytes. The
/// input bound keeps the encoder's output-length arithmetic, which panics
/// on overflow, far from it: a character encodes to at most four bytes.
#[verifier::external_body]
fn base64_standard(input: &str) -> (r: String)
    requires
        input@.len() <= 0x0400_0000_0000_0000,
    ensures
        r@ == b64_of(input.spec_bytes()),
        r@.len() == ((input.spec_bytes().len() + 2) / 3) * 4,
{
    base64::engine::general_purpose::STANDARD.encode(input)
}

/// The credential text that Basic authentication encodes.
pub open spec fn credentials_of(user: Seq<char>, pass: Seq<char>) -> Seq<char> {
    user + seq![':'] + pass
}

/// The Basic authorization token for a user and password: the base64
/// encoding of `user:password`. Yields nothing only for credentials whose
/// byte form exceeds the encoder's input bound.
pub fn basic_auth_token(username: &str, password: &str) -> (r: Option<String>)
    ensures
        match r {
            Some(t) => t@ == b64_of(encode_utf8(credentials_of(username@, password@))),
            None => credentials_of(username@, password@).len() > 0x0400_0000_0000_0000,
        },
{
    let mut creds = username.to_owned();
    creds.append(":");
    creds.append(password);
    proof {
        reveal_strlit(":");
        assert(creds@ =~= credentials_of(username@, password@));
    }
    if (creds.as_str().unicode_len() as u64) > 0x0400_0000_0000_0000u64 {
        return None;
    }
    Some(base64_standard(creds.as_str()))
}

/// The PROPFIND request of the connection test, depth 0 and no body, with
/// Basic credentials.
pub fn build_propfind_request(request_path: &str, host_port: &str, token: &str) -> (r: String)
    ensures
        r@ == "PROPFIND "@ + request_path@ + " HTTP/1.1\r\nHost: "@ + host_port@
            + "\r\nAuthorization: Basic "@ + token@
            + "\r\nDepth: 0\r\nContent-Length: 0\r\nConnection: close\r\n\r\n"@,
{
    let mut r = String::from_str("PROPFIND ");
    r.append(request_path);
    r.append(" HTTP/1.1\r\nHost: ");
    r.append(host_port);
    r.append("\r\nAuthorization: Basic ");
    r.append(token);
    r.append("\r\nDepth: 0\r\nContent-Length: 0\r\nConnection: close\r\n\r\n");
    proof {
        assert(r@ =~= "PROPFIND "@ + request_path@ + " HTTP/1.1\r\nHost: "@ + host_port@
            + "\r\nAuthorization: Basic "@ + token@
            + "\r\nDepth: 0\r\nContent-Length: 0\r\nConnection: close\r\n\r\n"@);
    }
    r
}

/// How the connection test read the reply.
#[derive(Debug, PartialEq, Eq, Structural)]
pub enum WebdavVerdict {
    /// The reply mentions 207 (Multi-Status) or 200.
    Success,
    /// The reply mentions 401 or 403.
    AuthFailed,
    /// Anything else.
    Unexpected,
}

/// Classifies the reply text of the PROPFIND request.
pub fn classify_webdav_response(resp: &str) -> (r: WebdavVerdict)
    ensures
        r == if contains_seq(resp@, "207"@) || contains_seq(resp@, "200"@) {
            WebdavVerdict::Success
        } else if contains_seq(resp@, "401"@) || contains_seq(resp@, "403"@) {
            WebdavVerdict::AuthFailed
        } else {
            WebdavVerdict::Unexpected
        },
{
    if contains_sub(resp, "207") || contains_sub(resp, "200") {
        WebdavVerdict::Success
    } else if contains_sub(resp, "401") || contains_sub(resp, "403") {
        WebdavVerdict::AuthFailed
    } else {
        WebdavVerdict::Unexpected
    }
}

} // verus!
