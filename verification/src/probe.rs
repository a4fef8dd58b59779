//! Liveness and service-scan decision logic.
//!
//! The application performs the timeout-bounded connection attempts and the
//! external ping; this module fixes the port lists and turns the recorded
//! outcomes into verdicts. A connection attempt that finishes within its
//! timeout counts as completed whether it was accepted or refused: a refusal
//! still proves a host is there. Only a timeout or an unreachable network
//! counts as a failure to connect.

use vstd::prelude::*;

verus! {

/// The outcome of one timeout-bounded connection attempt.
#[derive(Clone, Copy, Debug, PartialEq, Eq, Structural)]
pub enum ConnectOutcome {
    /// The attempt finished (accepted or refused) within the timeout.
    Completed,
    /// The attempt was still pending when the timeout expired, or the
    /// network was unreachable.
    TimedOut,
}

/// The ports tried by the fast liveness probe, in probing order.
pub open spec fn liveness_port_list() -> Seq<u16> {
    seq![22u16, 80u16, 135u16, 139u16, 443u16, 445u16]
}

/// The well-known ports covered by a service scan, in probing order.
pub open spec fn service_port_list() -> Seq<u16> {
    seq![
        21u16,
        22u16,
        23u16,
        25u16,
        53u16,
        80u16,
        110u16,
        135u16,
        139u16,
        143u16,
        443u16,
        445u16,
        993u16,
        995u16,
        3389u16,
        5985u16,
        5986u16,
    ]
}

/// The ports tried by the fast liveness probe.
pub fn liveness_ports() -> (r: Vec<u16>)
    ensures
        r@ == liveness_port_list(),
{
    let mut r: Vec<u16> = Vec::new();
    r.push(22);
    r.push(80);
    r.push(135);
    r.push(139);
    r.push(443);
    r.push(445);
    proof {
        assert(r@ =~= liveness_port_list());
    }
    r
}

/// The well-known ports covered by a service scan.
pub fn service_ports() -> (r: Vec<u16>)
    ensures
        r@ == service_port_list(),
{
    let mut r: Vec<u16> = Vec::new();
    r.push(21);
    r.push(22);
    r.push(23);
    r.push(25);
    r.push(53);
    r.push(80);
    r.push(110);
    r.push(135);
    r.push(139);
    r.push(143);
    r.push(443);
    r.push(445);
    r.push(993);
    r.push(995);
    r.push(3389);
    r.push(5985);
    r.push(5986);
    proof {
        assert(r@ =~= service_port_list());
    }
    r
}

/// Whether any fast-probe attempt completed.
pub open spec fn any_completed(s: Seq<ConnectOutcome>) -> bool {
    exists|i: int| 0 <= i < s.len() && s[i] is Completed
}

/// The liveness verdict for one address. The host is alive exactly when
/// some fast-probe connect completed within its timeout, or, failing all of
/// those, the external ping exited successfully. Transport failures never
/// surface as errors: they resolve to a negative verdict.
pub fn liveness_verdict(fast: &Vec<ConnectOutcome>, ping_exit_success: bool) -> (r: bool)
    ensures
        r == (any_completed(fast@) || ping_exit_success),
{
    let n = fast.len();
    let mut i: usize = 0;
    while i < n
        invariant
            i <= n,
            n == fast@.len(),
            forall|j: int| 0 <= j < i ==> !(fast@[j] is Completed),
        decreases n - i,
    {
        match fast[i] {
            ConnectOutcome::Completed => {
                return true;
            },
            ConnectOutcome::TimedOut => {
                i = i + 1;
            },
        }
    }
    ping_exit_success
}

/// One entry of a service scan: a port and whether the connect to it
/// completed within its timeout.
pub struct PortProbe {
    pub port: u16,
    pub completed: bool,
}

/// The open ports among a sequence of probe outcomes, in the order the
/// outcomes were recorded. The application records them in completion
/// order, which is not deterministic; callers needing a canonical order
/// must sort.
pub open spec fn open_ports_of(s: Seq<PortProbe>) -> Seq<u16>
    decreases s.len(),
{
    if s.len() == 0 {
        Seq::empty()
    } else if s.last().completed {
        open_ports_of(s.drop_last()).push(s.last().port)
    } else {
        open_ports_of(s.drop_last())
    }
}

/// A port is open exactly when its probe completed within the timeout.
pub fn open_ports_from_probes(probes: &Vec<PortProbe>) -> (r: Vec<u16>)
    ensures
        r@ == open_ports_of(probes@),
{
    let n = probes.len();
    let mut r: Vec<u16> = Vec::new();
    let mut i: usize = 0;
    while i < n
        invariant
            i <= n,
            n == probes@.len(),
            r@ == open_ports_of(probes@.take(i as int)),
        decreases n - i,
    {
        proof {
            assert(probes@.take(i + 1).drop_last() =~= probes@.take(i as int));
            assert(probes@.take(i + 1).last() == probes@[i as int]);
        }
        if probes[i].completed {
            r.push(probes[i].port);
        }
        i = i + 1;
    }
    proof {
        assert(probes@.take(n as int) =~= probes@);
    }
    r
}

} // verus!
