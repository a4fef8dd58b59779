//! Configuration data and the decisions around it.
//!
//! The shapes the caller loads, saves and edits, the default
//! configuration path under a home directory, and the classification of
//! HTTP method names for the generic request command. Reading and writing
//! files, environment lookup and the HTTP call itself happen in the
//! surrounding application.

use vstd::prelude::*;

verus! {

/// One access entry of a configuration: named credentials for a source.
pub struct ConfigurationAccess {
    pub name: String,
    /// The access kind, e.g. a protocol name.
    pub kind: String,
    pub account: String,
    pub secret: String,
}

/// One source entry of a configuration.
pub struct ConfigurationSource {
    /// The source kind, e.g. a protocol name.
    pub kind: String,
    pub url: String,
    pub access: String,
}

/// A loadable configuration: accesses and the sources that use them.
pub struct Configuration {
    pub accesses: Vec<ConfigurationAccess>,
    pub sources: Vec<ConfigurationSource>,
}

/// The desktop shell's mutable settings.
pub struct AppConfig {
    pub server_url: Option<String>,
    pub auth_token: Option<String>,
    pub theme: String,
    pub auto_start: bool,
}

impl Default for AppConfig {
    /// A fresh configuration: no server, no token, dark theme, no
    /// autostart.
    fn default() -> (r: AppConfig)
        ensures
            r.server_url is None,
            r.auth_token is None,
            r.theme@ == "dark"@,
            !r.auto_start,
    {
        AppConfig {
            server_url: None,
            auth_token: None,
            theme: String::from_str("dark"),
            auto_start: false,
        }
    }
}

impl AppConfig {
    /// Points the shell at a server; everything else stays as it was.
    pub fn set_server_url(&mut self, url: String)
        ensures
            final(self).server_url == Some(url),
            final(self).auth_token == old(self).auth_token,
            final(self).theme == old(self).theme,
            final(self).auto_start == old(self).auto_start,
    {
        self.server_url = Some(url);
    }

    /// Stores an authentication token; everything else stays as it was.
    pub fn set_auth_token(&mut self, token: String)
        ensures
            final(self).auth_token == Some(token),
            final(self).server_url == old(self).server_url,
            final(self).theme == old(self).theme,
            final(self).auto_start == old(self).auto_start,
    {
        self.auth_token = Some(token);
    }

    /// Forgets the authentication token; everything else stays as it was.
    pub fn clear_auth_token(&mut self)
        ensures
            final(self).auth_token is None,
            final(self).server_url == old(self).server_url,
            final(self).theme == old(self).theme,
            final(self).auto_start == old(self).auto_start,
    {
        self.auth_token = None;
    }
}

/// The default configuration path under a home directory.
pub fn config_path_for_home(home: &str) -> (r: String)
    ensures
        r@ == home@ + "/.catalogizer/config.json"@,
{
    let mut r = home.to_owned();
    r.append("/.catalogizer/config.json");
    r
}

/// A character folded to upper case, for ASCII letters only.
pub open spec fn upper_char(c: char) -> char {
    if 97 <= c as u32 <= 122 {
        ((c as u32) - 32) as char
    } else {
        c
    }
}

/// A name folded to upper case, ASCII letters only.
pub open spec fn upper_of(s: Seq<char>) -> Seq<char> {
    s.map_values(|c: char| upper_char(c))
}

/// Folds one character to upper case.
fn upper_char_exec(c: char) -> (r: char)
    ensures
        r == upper_char(c),
{
    let cu = c as u32;
    if cu >= 97 && cu <= 122 {
        ((cu - 32) as u8) as char
    } else {
        c
    }
}

/// Whether `m` equals `t` after folding `m` to upper case.
fn matches_upper(m: &str, t: &str) -> (r: bool)
    ensures
        r == (upper_of(m@) == t@),
{
    let m_len = m.unicode_len();
    let t_len = t.unicode_len();
    if m_len != t_len {
        proof {
            assert(upper_of(m@).len() == m@.len());
        }
        return false;
    }
    let mut i: usize = 0;
    while i < m_len
        invariant
            i <= m_len,
            m_len == m@.len(),
            t_len == t@.len(),
            m_len == t_len,
            forall|j: int| 0 <= j < i ==> upper_char(m@[j]) == t@[j],
        decreases m_len - i,
    {
        if upper_char_exec(m.get_char(i)) != t.get_char(i) {
            proof {
                assert(upper_of(m@)[i as int] != t@[i as int]);
            }
            return false;
        }
        i = i + 1;
    }
    proof {
        assert(upper_of(m@) =~= t@);
    }
    true
}

/// The HTTP methods the generic request command accepts.
#[derive(Clone, Copy, Debug, PartialEq, Eq, Structural)]
pub enum HttpMethod {
    Get,
    Post,
    Put,
    Delete,
    Patch,
}

/// Classifies an HTTP method name, case-insensitively for ASCII letters.
/// Any other name is unsupported and yields nothing.
pub fn parse_http_method(m: &str) -> (r: Option<HttpMethod>)
    ensures
        r == if upper_of(m@) == "GET"@ {
            Some(HttpMethod::Get)
        } else if upper_of(m@) == "POST"@ {
            Some(HttpMethod::Post)
        } else if upper_of(m@) == "PUT"@ {
            Some(HttpMethod::Put)
        } else if upper_of(m@) == "DELETE"@ {
            Some(HttpMethod::Delete)
        } else if upper_of(m@) == "PATCH"@ {
            Some(HttpMethod::Patch)
        } else {
            None::<HttpMethod>
        },
{
    if matches_upper(m, "GET") {
        Some(HttpMethod::Get)
    } else if matches_upper(m, "POST") {
        Some(HttpMethod::Post)
    } else if matches_upper(m, "PUT") {
        Some(HttpMethod::Put)
    } else if matches_upper(m, "DELETE") {
        Some(HttpMethod::Delete)
    } else if matches_upper(m, "PATCH") {
        Some(HttpMethod::Patch)
    } else {
        None
    }
}

} // verus!
