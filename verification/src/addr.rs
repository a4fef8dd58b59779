//! IPv4 address arithmetic: dotted-quad rendering and /24 block math.
//!
//! An address is held as one `u32`, most significant octet first. A derived
//! block follows the standard CIDR masking convention: the given address is
//! masked down to its /24 network address, and the block enumerates all 256
//! addresses of that network, network and broadcast addresses included.

use vstd::prelude::*;

verus! {

/// Number of addresses in one /24 block.
pub const RANGE_SIZE: usize = 256;

/// Most significant octet of an address.
pub open spec fn octet0(a: u32) -> int {
    a as int / 0x0100_0000
}

/// Second octet of an address.
pub open spec fn octet1(a: u32) -> int {
    (a as int / 0x0001_0000) % 256
}

/// Third octet of an address.
pub open spec fn octet2(a: u32) -> int {
    (a as int / 0x0000_0100) % 256
}

/// Least significant octet of an address.
pub open spec fn octet3(a: u32) -> int {
    a as int % 256
}

/// The character for one decimal digit.
pub open spec fn digit_char(d: int) -> char {
    if d == 0 {
        '0'
    } else if d == 1 {
        '1'
    } else if d == 2 {
        '2'
    } else if d == 3 {
        '3'
    } else if d == 4 {
        '4'
    } else if d == 5 {
        '5'
    } else if d == 6 {
        '6'
    } else if d == 7 {
        '7'
    } else if d == 8 {
        '8'
    } else {
        '9'
    }
}

/// Decimal representation of a non-negative integer, without leading zeros.
pub open spec fn dec_rep(n: int) -> Seq<char>
    decreases n,
{
    if n < 10 {
        seq![digit_char(n)]
    } else {
        dec_rep(n / 10).push(digit_char(n % 10))
    }
}

/// The dotted-quad string of an address, e.g. `192.168.1.2`.
pub open spec fn dotted_quad(a: u32) -> Seq<char> {
    dec_rep(octet0(a)) + seq!['.'] + dec_rep(octet1(a)) + seq!['.'] + dec_rep(octet2(a))
        + seq!['.'] + dec_rep(octet3(a))
}

fn digit_string(d: u8) -> (r: String)
    requires
        d < 10,
    ensures
        r@ == seq![digit_char(d as int)],
{
    let r = match d {
        0 => String::from_str("0"),
        1 => String::from_str("1"),
        2 => String::from_str("2"),
        3 => String::from_str("3"),
        4 => String::from_str("4"),
        5 => String::from_str("5"),
        6 => String::from_str("6"),
        7 => String::from_str("7"),
        8 => String::from_str("8"),
        _ => String::from_str("9"),
    };
    proof {
        reveal_strlit("0");
        reveal_strlit("1");
        reveal_strlit("2");
        reveal_strlit("3");
        reveal_strlit("4");
        reveal_strlit("5");
        reveal_strlit("6");
        reveal_strlit("7");
        reveal_strlit("8");
        reveal_strlit("9");
        assert(r@ =~= seq![digit_char(d as int)]);
    }
    r
}

/// Renders one octet value in decimal.
fn format_octet(n: u8) -> (r: String)
    ensures
        r@ == dec_rep(n as int),
{
    if n < 10 {
        digit_string(n)
    } else if n < 100 {
        let r = digit_string(n / 10).concat(digit_string(n % 10).as_str());
        proof {
            assert(dec_rep(n as int) == dec_rep(n as int / 10).push(digit_char(n as int % 10)));
            assert(dec_rep(n as int / 10) == seq![digit_char(n as int / 10)]);
            assert(r@ =~= dec_rep(n as int));
        }
        r
    } else {
        let r = digit_string(n / 100).concat(digit_string((n / 10) % 10).as_str()).concat(
            digit_string(n % 10).as_str(),
        );
        proof {
            assert(n as int / 10 / 10 == n as int / 100);
            assert(dec_rep(n as int) == dec_rep(n as int / 10).push(digit_char(n as int % 10)));
            assert(dec_rep(n as int / 10) == dec_rep(n as int / 100).push(
                digit_char((n as int / 10) % 10),
            ));
            assert(dec_rep(n as int / 100) == seq![digit_char(n as int / 100)]);
            assert(r@ =~= dec_rep(n as int));
        }
        r
    }
}

/// Renders an address as its dotted-quad string.
pub fn format_ipv4(a: u32) -> (r: String)
    ensures
        r@ == dotted_quad(a),
{
    let o0 = (a / 0x0100_0000) as u8;
    let o1 = ((a / 0x0001_0000) % 256) as u8;
    let o2 = ((a / 0x0000_0100) % 256) as u8;
    let o3 = (a % 256) as u8;
    let mut r = format_octet(o0);
    let dot = String::from_str(".");
    proof {
        reveal_strlit(".");
        assert(dot@ =~= seq!['.']);
    }
    r.append(dot.as_str());
    r.append(format_octet(o1).as_str());
    r.append(dot.as_str());
    r.append(format_octet(o2).as_str());
    r.append(dot.as_str());
    r.append(format_octet(o3).as_str());
    proof {
        assert(r@ =~= dotted_quad(a));
    }
    r
}

/// A /24 block of IPv4 addresses, anchored at its network address.
pub struct AddressRange {
    pub base: u32,
}

/// The 256 consecutive addresses of a /24 block.
pub open spec fn range_seq(base: u32) -> Seq<u32> {
    Seq::new(256, |i: int| (base + i) as u32)
}

impl AddressRange {
    /// A block is well formed when its base is /24-aligned.
    pub open spec fn wf(self) -> bool {
        self.base % 256 == 0
    }

    /// Widens one address to the /24 block that contains it, masking the
    /// host octet to zero.
    pub fn derive(addr: u32) -> (r: AddressRange)
        ensures
            r.wf(),
            r.base == addr / 256 * 256,
            octet3(r.base) == 0,
    {
        let base = addr / 256 * 256;
        proof {
            assert((addr / 256 * 256) % 256 == 0) by (nonlinear_arith);
        }
        AddressRange { base }
    }

    /// Enumerates every address of the block, in ascending order.
    pub fn addresses(&self) -> (r: Vec<u32>)
        requires
            self.wf(),
        ensures
            r@ == range_seq(self.base),
            r@.len() == RANGE_SIZE,
    {
        proof {
            assert(self.base <= 0xFFFF_FF00u32) by (nonlinear_arith)
                requires
                    self.base % 256 == 0,
            ;
        }
        let mut r: Vec<u32> = Vec::new();
        let mut i: usize = 0;
        while i < 256
            invariant
                i <= 256,
                self.base <= 0xFFFF_FF00u32,
                r@.len() == i,
                forall|j: int| 0 <= j < i ==> r@[j] == (self.base + j) as u32,
            decreases 256 - i,
        {
            r.push(self.base + (i as u32));
            i = i + 1;
        }
        proof {
            assert(r@ =~= range_seq(self.base));
        }
        r
    }
}

} // verus!
