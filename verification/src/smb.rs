//! SMB share discovery and browsing: the decision and fallback logic.
//!
//! Real enumeration belongs to an external catalog service; this module
//! fixes what the caller sees of its answers. A successful answer passes
//! through unchanged; a failed or unreachable service falls back to the
//! static candidate lists below, never to an error.

use vstd::prelude::*;

verus! {

/// One SMB share as reported to the caller.
pub struct SMBShare {
    pub host: String,
    pub share_name: String,
    pub path: String,
    pub writable: bool,
    pub description: Option<String>,
}

/// One file or directory inside a share.
pub struct FileEntry {
    pub name: String,
    pub path: String,
    pub is_directory: bool,
    pub size: Option<u64>,
    pub modified: Option<String>,
}

/// The backslash character.
pub open spec fn backslash() -> char {
    92u8 as char
}

/// The UNC path of a share: two backslashes, the host, one backslash, the
/// share name.
pub open spec fn smb_path_of(host: Seq<char>, name: Seq<char>) -> Seq<char> {
    seq![backslash(), backslash()] + host + seq![backslash()] + name
}

/// The candidate share names tried when discovery is unavailable.
pub open spec fn common_share_names() -> Seq<Seq<char>> {
    seq![
        "shared"@,
        "public"@,
        "media"@,
        "downloads"@,
        "documents"@,
        "music"@,
        "videos"@,
        "pictures"@,
        "backup"@,
    ]
}

/// The descriptions paired with the candidate share names.
pub open spec fn common_share_descs() -> Seq<Seq<char>> {
    seq![
        "Shared folder"@,
        "Public folder"@,
        "Media files"@,
        "Downloads"@,
        "Documents"@,
        "Music files"@,
        "Video files"@,
        "Pictures"@,
        "Backup files"@,
    ]
}

/// `r` is exactly the static candidate-share list for `host`: one entry
/// per candidate name, in order, never writable, with its UNC path and
/// description.
pub open spec fn is_common_shares(host: Seq<char>, r: Seq<SMBShare>) -> bool {
    &&& r.len() == common_share_names().len()
    &&& forall|i: int|
        0 <= i < r.len() ==> {
            &&& (#[trigger] r[i]).host@ == host
            &&& r[i].share_name@ == common_share_names()[i]
            &&& r[i].path@ == smb_path_of(host, common_share_names()[i])
            &&& !r[i].writable
            &&& r[i].description is Some
            &&& r[i].description->0@ == common_share_descs()[i]
        }
}

/// Builds one candidate share entry.
fn make_common_share(host: &str, name: &str, desc: &str) -> (r: SMBShare)
    ensures
        r.host@ == host@,
        r.share_name@ == name@,
        r.path@ == smb_path_of(host@, name@),
        !r.writable,
        r.description is Some,
        r.description->0@ == desc@,
{
    let mut path = String::from_str("\\\\");
    path.append(host);
    path.append("\\");
    path.append(name);
    proof {
        reveal_strlit("\\\\");
        reveal_strlit("\\");
        assert(path@ =~= smb_path_of(host@, name@));
    }
    SMBShare {
        host: host.to_owned(),
        share_name: name.to_owned(),
        path,
        writable: false,
        description: Some(desc.to_owned()),
    }
}

/// The static candidate shares for a host, used when discovery is
/// unavailable.
pub fn get_common_shares(host: &str) -> (r: Vec<SMBShare>)
    ensures
        is_common_shares(host@, r@),
{
    let mut r: Vec<SMBShare> = Vec::new();
    r.push(make_common_share(host, "shared", "Shared folder"));
    r.push(make_common_share(host, "public", "Public folder"));
    r.push(make_common_share(host, "media", "Media files"));
    r.push(make_common_share(host, "downloads", "Downloads"));
    r.push(make_common_share(host, "documents", "Documents"));
    r.push(make_common_share(host, "music", "Music files"));
    r.push(make_common_share(host, "videos", "Video files"));
    r.push(make_common_share(host, "pictures", "Pictures"));
    r.push(make_common_share(host, "backup", "Backup files"));
    proof {
        assert forall|i: int| 0 <= i < r@.len() implies {
            &&& (#[trigger] r@[i]).host@ == host@
            &&& r@[i].share_name@ == common_share_names()[i]
            &&& r@[i].path@ == smb_path_of(host@, common_share_names()[i])
            &&& !r@[i].writable
            &&& r@[i].description is Some
            &&& r@[i].description->0@ == common_share_descs()[i]
        } by {
            assert(0 <= i < 9);
        }
    }
    r
}

/// `r` is exactly the placeholder browse listing: a parent link, one
/// example directory and one example file.
pub open spec fn is_mock_entries(r: Seq<FileEntry>) -> bool {
    &&& r.len() == 3
    &&& r[0].name@ == ".."@
    &&& r[0].path@ == ".."@
    &&& r[0].is_directory
    &&& r[0].size is None
    &&& r[0].modified is None
    &&& r[1].name@ == "Example Folder"@
    &&& r[1].path@ == "Example Folder"@
    &&& r[1].is_directory
    &&& r[1].size is None
    &&& r[1].modified is Some
    &&& r[1].modified->0@ == "2024-01-01 12:00:00"@
    &&& r[2].name@ == "example.txt"@
    &&& r[2].path@ == "example.txt"@
    &&& !r[2].is_directory
    &&& r[2].size == Some(1024u64)
    &&& r[2].modified is Some
    &&& r[2].modified->0@ == "2024-01-01 12:00:00"@
}

/// The placeholder listing shown when browsing is unavailable.
pub fn get_mock_entries() -> (r: Vec<FileEntry>)
    ensures
        is_mock_entries(r@),
{
    let mut r: Vec<FileEntry> = Vec::new();
    r.push(
        FileEntry {
            name: String::from_str(".."),
            path: String::from_str(".."),
            is_directory: true,
            size: None,
            modified: None,
        },
    );
    r.push(
        FileEntry {
            name: String::from_str("Example Folder"),
            path: String::from_str("Example Folder"),
            is_directory: true,
            size: None,
            modified: Some(String::from_str("2024-01-01 12:00:00")),
        },
    );
    r.push(
        FileEntry {
            name: String::from_str("example.txt"),
            path: String::from_str("example.txt"),
            is_directory: false,
            size: Some(1024),
            modified: Some(String::from_str("2024-01-01 12:00:00")),
        },
    );
    r
}

/// What discovery hands the caller: the service's shares when it answered
/// successfully, else the static candidates. Never an error.
pub fn shares_from_discovery(host: &str, answer: Option<Vec<SMBShare>>) -> (r: Vec<SMBShare>)
    ensures
        answer is Some ==> r == answer->0,
        answer is None ==> is_common_shares(host@, r@),
{
    match answer {
        Some(shares) => shares,
        None => get_common_shares(host),
    }
}

/// What browsing hands the caller: the service's listing when it answered
/// successfully, else the placeholder listing. Never an error.
pub fn entries_from_browse(answer: Option<Vec<FileEntry>>) -> (r: Vec<FileEntry>)
    ensures
        answer is Some ==> r == answer->0,
        answer is None ==> is_mock_entries(r@),
{
    match answer {
        Some(entries) => entries,
        None => get_mock_entries(),
    }
}

/// What the connection test reports: true exactly when the service
/// answered and its `success` field was true. Any failure reads as false.
pub fn connection_test_verdict(success_field: Option<bool>) -> (r: bool)
    ensures
        r == (success_field == Some(true)),
{
    match success_field {
        Some(b) => b,
        None => false,
    }
}

/// The browse path handed to the service: the given one, or the current
/// directory when none was given.
pub fn browse_path_or_default(path: Option<String>) -> (r: String)
    ensures
        path is Some ==> r == path->0,
        path is None ==> r@ == "."@,
{
    match path {
        Some(p) => p,
        None => String::from_str("."),
    }
}

/// An entry size as the service reports it, converted to the caller's
/// unsigned form: negative values wrap as two's complement.
pub fn entry_size_from_api(s: i64) -> (r: u64)
    ensures
        s >= 0 ==> r == s,
        s < 0 ==> r == s + 0x1_0000_0000_0000_0000,
{
    if s >= 0 {
        s as u64
    } else {
        ((s as i128) + 0x1_0000_0000_0000_0000i128) as u64
    }
}

/// The discovery endpoint under an API base URL.
pub fn smb_discover_url(base: &str) -> (r: String)
    ensures
        r@ == base@ + "/api/v1/smb/discover"@,
{
    let mut r = base.to_owned();
    r.append("/api/v1/smb/discover");
    r
}

/// The browse endpoint under an API base URL.
pub fn smb_browse_url(base: &str) -> (r: String)
    ensures
        r@ == base@ + "/api/v1/smb/browse"@,
{
    let mut r = base.to_owned();
    r.append("/api/v1/smb/browse");
    r
}

/// The connection-test endpoint under an API base URL.
pub fn smb_test_url(base: &str) -> (r: String)
    ensures
        r@ == base@ + "/api/v1/smb/test"@,
{
    let mut r = base.to_owned();
    r.append("/api/v1/smb/test");
    r
}

} // verus!
