//! Network interfaces as the scanner sees them: a name and the addresses
//! bound to it, in the order the enumeration source reported them.
//!
//! Only IPv4 addresses take part in range derivation: each interface yields
//! at most one /24 block, anchored at the first IPv4 address found, and an
//! interface with no IPv4 address yields none.

use vstd::prelude::*;
use crate::addr::AddressRange;

verus! {

/// One address bound to an interface. Address families other than IPv4
/// (IPv6 in particular) carry nothing the scanner reads.
#[derive(Clone, Copy, Debug, PartialEq, Eq, Structural)]
pub enum BoundAddress {
    V4(u32),
    Other,
}

/// A named interface with zero or more bound addresses.
pub struct Interface {
    pub name: String,
    pub addrs: Vec<BoundAddress>,
}

/// The first IPv4 address in a list of bound addresses, if any.
pub open spec fn first_v4(s: Seq<BoundAddress>) -> Option<u32>
    decreases s.len(),
{
    if s.len() == 0 {
        None
    } else if s[0] is V4 {
        Some(s[0]->V4_0)
    } else {
        first_v4(s.skip(1))
    }
}

/// A list of bound addresses yields no IPv4 address exactly when none of
/// its entries is IPv4.
pub proof fn lemma_first_v4_none(s: Seq<BoundAddress>)
    ensures
        first_v4(s) is None <==> (forall|i: int| 0 <= i < s.len() ==> !(s[i] is V4)),
    decreases s.len(),
{
    if s.len() > 0 {
        lemma_first_v4_none(s.skip(1));
        if first_v4(s) is None {
            assert forall|i: int| 0 <= i < s.len() implies !(s[i] is V4) by {
                if i >= 1 {
                    assert(s.skip(1)[i - 1] == s[i]);
                }
            }
        } else {
            if !(s[0] is V4) {
                let j = choose|j: int| 0 <= j < s.skip(1).len() && s.skip(1)[j] is V4;
                assert(s[j + 1] is V4);
            }
        }
    }
}

/// The /24 block an interface contributes: derived from its first IPv4
/// address, or absent when the interface has none.
pub open spec fn derived_range(iface: Interface) -> Option<u32> {
    match first_v4(iface.addrs@) {
        None => None,
        Some(a) => Some((a / 256 * 256) as u32),
    }
}

/// Scans the bound addresses in their given order and widens the first
/// IPv4 address to its /24 block.
pub fn derive_range(iface: &Interface) -> (r: Option<AddressRange>)
    ensures
        match derived_range(*iface) {
            None => r is None,
            Some(base) => r is Some && r->0.base == base && r->0.wf(),
        },
        r is None <==> (forall|i: int| 0 <= i < iface.addrs@.len() ==> !(iface.addrs@[i] is V4)),
{
    proof {
        lemma_first_v4_none(iface.addrs@);
        assert(iface.addrs@.skip(0) =~= iface.addrs@);
    }
    let n = iface.addrs.len();
    let mut i: usize = 0;
    while i < n
        invariant
            i <= n,
            n == iface.addrs@.len(),
            forall|j: int| 0 <= j < i ==> !(iface.addrs@[j] is V4),
            first_v4(iface.addrs@) == first_v4(iface.addrs@.skip(i as int)),
        decreases n - i,
    {
        match iface.addrs[i] {
            BoundAddress::V4(a) => {
                proof {
                    assert(iface.addrs@.skip(i as int)[0] == iface.addrs@[i as int]);
                }
                return Some(AddressRange::derive(a));
            },
            BoundAddress::Other => {
                proof {
                    assert(iface.addrs@.skip(i as int)[0] == iface.addrs@[i as int]);
                    assert(iface.addrs@.skip(i as int).skip(1) =~= iface.addrs@.skip(i + 1));
                }
                i = i + 1;
            },
        }
    }
    proof {
        assert(iface.addrs@.skip(n as int) =~= Seq::<BoundAddress>::empty());
    }
    None
}

} // verus!
