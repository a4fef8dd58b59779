//! Host records: the unit of discovery output.
//!
//! A record folds the per-address findings together: open ports, a
//! best-effort hostname, a best-effort MAC address, and SMB share hints.
//! The hints are candidate share names, not a verified enumeration: they
//! are attached exactly when an SMB port (445 or 139) was found open.

use vstd::prelude::*;

verus! {

/// The discovery result for one address.
pub struct NetworkHost {
    /// Dotted-quad address, the unique key within one scan result.
    pub ip: String,
    /// From best-effort reverse name resolution; absent on any failure.
    pub hostname: Option<String>,
    /// From best-effort neighbor-table lookup; absent on any failure.
    pub mac_address: Option<String>,
    /// Reserved for a future MAC-vendor lookup; always absent here.
    pub vendor: Option<String>,
    /// Ports found open, in probe completion order.
    pub open_ports: Vec<u16>,
    /// Candidate SMB share names; attached only when port 445 or 139 is open.
    pub smb_shares: Vec<String>,
}

/// The static candidate share names attached to hosts with an open SMB port.
pub open spec fn share_hint_list() -> Seq<Seq<char>> {
    seq!["C$"@, "ADMIN$"@, "IPC$"@, "shared"@, "public"@, "media"@, "downloads"@]
}

/// Whether an open-port set calls for SMB share hints.
pub open spec fn wants_share_hints(ports: Seq<u16>) -> bool {
    ports.contains(445u16) || ports.contains(139u16)
}

/// A record's share hints are non-empty only when an SMB port is open.
pub open spec fn smb_hints_wf(h: NetworkHost) -> bool {
    h.smb_shares@.len() != 0 ==> wants_share_hints(h.open_ports@)
}

/// The candidate share names tried against a host with an open SMB port.
pub fn smb_share_hints() -> (r: Vec<String>)
    ensures
        r.deep_view() == share_hint_list(),
{
    let mut r: Vec<String> = Vec::new();
    r.push(String::from_str("C$"));
    r.push(String::from_str("ADMIN$"));
    r.push(String::from_str("IPC$"));
    r.push(String::from_str("shared"));
    r.push(String::from_str("public"));
    r.push(String::from_str("media"));
    r.push(String::from_str("downloads"));
    proof {
        assert(r.deep_view() =~= share_hint_list());
    }
    r
}

/// Whether a port list contains a given port.
pub fn contains_port(ports: &Vec<u16>, p: u16) -> (r: bool)
    ensures
        r == ports@.contains(p),
{
    let n = ports.len();
    let mut i: usize = 0;
    while i < n
        invariant
            i <= n,
            n == ports@.len(),
            forall|j: int| 0 <= j < i ==> ports@[j] != p,
        decreases n - i,
    {
        if ports[i] == p {
            return true;
        }
        i = i + 1;
    }
    false
}

/// The first name a reverse lookup returned, or none.
pub fn choose_hostname(names: Vec<String>) -> (r: Option<String>)
    ensures
        names@.len() == 0 ==> r is None,
        names@.len() != 0 ==> r == Some(names@[0]),
{
    if names.len() == 0 {
        None
    } else {
        Some(names[0].clone())
    }
}

/// Builds the record for one address. The vendor field is always absent,
/// and share hints are attached exactly when port 445 or 139 is open.
pub fn build_host_record(
    ip: String,
    hostname: Option<String>,
    mac_address: Option<String>,
    open_ports: Vec<u16>,
) -> (r: NetworkHost)
    ensures
        r.ip == ip,
        r.hostname == hostname,
        r.mac_address == mac_address,
        r.vendor is None,
        r.open_ports == open_ports,
        wants_share_hints(open_ports@) ==> r.smb_shares.deep_view() == share_hint_list(),
        !wants_share_hints(open_ports@) ==> r.smb_shares@.len() == 0,
        smb_hints_wf(r),
{
    let smb_shares: Vec<String> = if contains_port(&open_ports, 445) || contains_port(
        &open_ports,
        139,
    ) {
        smb_share_hints()
    } else {
        Vec::new()
    };
    proof {
        if wants_share_hints(open_ports@) {
            assert(smb_shares.deep_view().len() == 7);
            assert(smb_shares@.len() == smb_shares.deep_view().len());
        }
    }
    NetworkHost { ip, hostname, mac_address, vendor: None, open_ports, smb_shares }
}

} // verus!
