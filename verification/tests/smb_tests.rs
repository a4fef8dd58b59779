use netscan::smb::{
    browse_path_or_default, connection_test_verdict, entries_from_browse, entry_size_from_api,
    get_common_shares, get_mock_entries, shares_from_discovery, smb_browse_url, smb_discover_url,
    smb_test_url, FileEntry, SMBShare,
};

#[test]
fn common_shares_cover_the_candidate_names() {
    let shares = get_common_shares("192.168.1.5");
    let names: Vec<&str> = shares.iter().map(|s| s.share_name.as_str()).collect();
    assert_eq!(
        names,
        vec![
            "shared",
            "public",
            "media",
            "downloads",
            "documents",
            "music",
            "videos",
            "pictures",
            "backup"
        ]
    );
}

#[test]
fn common_share_entries_are_filled_in() {
    let shares = get_common_shares("192.168.1.5");
    let first = &shares[0];
    assert_eq!(first.host.as_str(), "192.168.1.5");
    assert_eq!(first.path.as_str(), "\\\\192.168.1.5\\shared");
    assert!(!first.writable);
    assert_eq!(first.description.as_deref(), Some("Shared folder"));
    let last = &shares[8];
    assert_eq!(last.share_name.as_str(), "backup");
    assert_eq!(last.path.as_str(), "\\\\192.168.1.5\\backup");
    assert_eq!(last.description.as_deref(), Some("Backup files"));
}

#[test]
fn mock_entries_are_the_fixed_placeholder_listing() {
    let entries = get_mock_entries();
    assert_eq!(entries.len(), 3);
    assert_eq!(entries[0].name.as_str(), "..");
    assert!(entries[0].is_directory);
    assert!(entries[0].size.is_none());
    assert!(entries[0].modified.is_none());
    assert_eq!(entries[1].name.as_str(), "Example Folder");
    assert!(entries[1].is_directory);
    assert_eq!(entries[1].modified.as_deref(), Some("2024-01-01 12:00:00"));
    assert_eq!(entries[2].name.as_str(), "example.txt");
    assert!(!entries[2].is_directory);
    assert_eq!(entries[2].size, Some(1024));
}

#[test]
fn successful_discovery_passes_through() {
    let answer = vec![SMBShare {
        host: "h".to_string(),
        share_name: "data".to_string(),
        path: "\\\\h\\data".to_string(),
        writable: true,
        description: None,
    }];
    let r = shares_from_discovery("h", Some(answer));
    assert_eq!(r.len(), 1);
    assert_eq!(r[0].share_name.as_str(), "data");
    assert!(r[0].writable);
}

#[test]
fn failed_discovery_falls_back_to_common_shares() {
    let r = shares_from_discovery("192.168.1.9", None);
    assert_eq!(r.len(), 9);
    assert_eq!(r[0].host.as_str(), "192.168.1.9");
}

#[test]
fn successful_browse_passes_through() {
    let answer = vec![FileEntry {
        name: "report.pdf".to_string(),
        path: "docs/report.pdf".to_string(),
        is_directory: false,
        size: Some(99),
        modified: None,
    }];
    let r = entries_from_browse(Some(answer));
    assert_eq!(r.len(), 1);
    assert_eq!(r[0].name.as_str(), "report.pdf");
}

#[test]
fn failed_browse_falls_back_to_mock_entries() {
    let r = entries_from_browse(None);
    assert_eq!(r.len(), 3);
    assert_eq!(r[0].name.as_str(), "..");
}

#[test]
fn connection_test_needs_an_explicit_success() {
    assert!(connection_test_verdict(Some(true)));
    assert!(!connection_test_verdict(Some(false)));
    assert!(!connection_test_verdict(None));
}

#[test]
fn browse_path_defaults_to_current_directory() {
    assert_eq!(browse_path_or_default(None).as_str(), ".");
    assert_eq!(
        browse_path_or_default(Some("docs".to_string())).as_str(),
        "docs"
    );
}

#[test]
fn entry_sizes_wrap_as_twos_complement() {
    assert_eq!(entry_size_from_api(0), 0);
    assert_eq!(entry_size_from_api(4096), 4096);
    assert_eq!(entry_size_from_api(-1), u64::MAX);
    assert_eq!(entry_size_from_api(i64::MIN), 0x8000_0000_0000_0000);
}

#[test]
fn api_endpoints_hang_off_the_base_url() {
    let base = "http://localhost:8080";
    assert_eq!(
        smb_discover_url(base).as_str(),
        "http://localhost:8080/api/v1/smb/discover"
    );
    assert_eq!(
        smb_browse_url(base).as_str(),
        "http://localhost:8080/api/v1/smb/browse"
    );
    assert_eq!(
        smb_test_url(base).as_str(),
        "http://localhost:8080/api/v1/smb/test"
    );
}
