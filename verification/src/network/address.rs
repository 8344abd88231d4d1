//! Addresses and how they are written.

use crate::text::{append_decimal, append_text, decimal, utf8};
use vstd::prelude::*;

verus! {

/// An IPv4 address.
#[derive(Clone, Copy, Debug, PartialEq, Eq, Structural)]
pub struct Ipv4Address {
    /// First byte.
    pub a: u8,
    /// Second byte.
    pub b: u8,
    /// Third byte.
    pub c: u8,
    /// Fourth byte.
    pub d: u8,
}

/// A hardware address.
#[derive(Clone, Copy, Debug, PartialEq, Eq, Structural)]
pub struct MacAddress {
    /// First two bytes, as one number.
    pub vendor: u16,
    /// Last four bytes, as one number.
    pub serial: u32,
}

impl Ipv4Address {
    /// The address in dotted form.
    pub open spec fn text(self) -> Seq<u8> {
        decimal(self.a as nat) + utf8(".") + decimal(self.b as nat) + utf8(".") + decimal(
            self.c as nat,
        ) + utf8(".") + decimal(self.d as nat)
    }

    /// Whether every byte is zero.
    pub fn is_zero(self) -> (zero: bool)
        ensures
            zero == (self == Ipv4Address { a: 0, b: 0, c: 0, d: 0 }),
    {
        self.a == 0 && self.b == 0 && self.c == 0 && self.d == 0
    }
}

/// Append an address in dotted form.
pub fn write_ipv4(output: &mut Vec<u8>, address: Ipv4Address)
    ensures
        final(output)@ == old(output)@ + address.text(),
{
    let ghost before = output@;
    append_decimal(output, address.a as u64);
    append_text(output, ".");
    append_decimal(output, address.b as u64);
    append_text(output, ".");
    append_decimal(output, address.c as u64);
    append_text(output, ".");
    append_decimal(output, address.d as u64);
    assert(output@ =~= before + address.text());
}

/// Number of ones in the binary form of `n`.
pub open spec fn ones(n: nat) -> nat
    decreases n,
{
    if n == 0 {
        0
    } else {
        n % 2 + ones(n / 2)
    }
}

proof fn lemma_ones_bound(n: nat)
    ensures
        n < 256 ==> ones(n) <= 8,
{
    if n < 256 {
        reveal_with_fuel(ones, 9);
    }
}

fn count_ones(byte: u8) -> (count: u32)
    ensures
        count == ones(byte as nat),
        count <= 8,
{
    let mut rest: u8 = byte;
    let mut count: u32 = 0;
    proof {
        lemma_ones_bound(byte as nat);
    }
    while rest > 0
        invariant
            count + ones(rest as nat) == ones(byte as nat),
            ones(byte as nat) <= 8,
        decreases rest,
    {
        count = count + (rest % 2) as u32;
        rest = rest / 2;
    }
    count
}

/// Number of ones in a subnet mask.
pub open spec fn prefix_length(mask: Ipv4Address) -> nat {
    ones(mask.a as nat) + ones(mask.b as nat) + ones(mask.c as nat) + ones(mask.d as nat)
}

/// Number of ones in a subnet mask.
pub fn subnet_prefix(mask: Ipv4Address) -> (prefix: u32)
    ensures
        prefix == prefix_length(mask),
{
    count_ones(mask.a) + count_ones(mask.b) + count_ones(mask.c) + count_ones(mask.d)
}

/// What is seen of the network.
#[derive(Clone, Copy, Debug, PartialEq, Eq, Structural)]
pub struct NetworkStatus {
    /// Hardware address.
    pub mac: MacAddress,
    /// Own address.
    pub address: Option<Ipv4Address>,
    /// Subnet mask.
    pub subnet_mask: Option<Ipv4Address>,
    /// Gateway.
    pub gateway: Option<Ipv4Address>,
    /// Seconds that the address may be used.
    pub lease_seconds: Option<u32>,
}

/// What the boot report says of the network.
pub open spec fn boot_label(status: NetworkStatus) -> Seq<u8> {
    match status.address {
        None => utf8("Configuring network"),
        Some(address) => {
            let named = utf8("Configuring network") + utf8(": ") + address.text();
            match status.subnet_mask {
                None => named,
                Some(mask) => named + utf8("/") + decimal(prefix_length(mask)),
            }
        },
    }
}

/// Format what the boot report says of the network.
pub fn network_boot_label(status: NetworkStatus) -> (label: Vec<u8>)
    ensures
        label@ == boot_label(status),
{
    let mut label: Vec<u8> = Vec::new();
    append_text(&mut label, "Configuring network");
    assert(label@ =~= utf8("Configuring network"));
    match status.address {
        Some(address) => {
            append_text(&mut label, ": ");
            write_ipv4(&mut label, address);
            match status.subnet_mask {
                Some(mask) => {
                    append_text(&mut label, "/");
                    append_decimal(&mut label, subnet_prefix(mask) as u64);
                },
                None => {},
            }
        },
        None => {},
    }
    label
}

/// Whether two addresses are in one subnet.
pub open spec fn in_subnet(left: Ipv4Address, right: Ipv4Address, mask: Ipv4Address) -> bool {
    &&& left.a & mask.a == right.a & mask.a
    &&& left.b & mask.b == right.b & mask.b
    &&& left.c & mask.c == right.c & mask.c
    &&& left.d & mask.d == right.d & mask.d
}

/// Whether two addresses are in one subnet.
pub fn same_subnet(left: Ipv4Address, right: Ipv4Address, mask: Ipv4Address) -> (same: bool)
    ensures
        same == in_subnet(left, right, mask),
{
    left.a & mask.a == right.a & mask.a && left.b & mask.b == right.b & mask.b && left.c & mask.c
        == right.c & mask.c && left.d & mask.d == right.d & mask.d
}

/// Being in one subnet is an equivalence.
pub proof fn subnets_are_classes(x: Ipv4Address, y: Ipv4Address, z: Ipv4Address, mask: Ipv4Address)
    ensures
        in_subnet(x, x, mask),
        in_subnet(x, y, mask) == in_subnet(y, x, mask),
        in_subnet(x, y, mask) && in_subnet(y, z, mask) ==> in_subnet(x, z, mask),
{
}

/// Two addresses are in one subnet exactly where they differ in no bit that the
/// mask has.
pub proof fn subnets_differ_outside_the_mask(
    left: Ipv4Address,
    right: Ipv4Address,
    mask: Ipv4Address,
)
    ensures
        in_subnet(left, right, mask) <==> {
            &&& (left.a ^ right.a) & mask.a == 0
            &&& (left.b ^ right.b) & mask.b == 0
            &&& (left.c ^ right.c) & mask.c == 0
            &&& (left.d ^ right.d) & mask.d == 0
        },
{
    assert(forall|l: u8, r: u8, m: u8|
        (l & m == r & m) <==> (#[trigger] ((l ^ r) & m) == 0)) by (bit_vector);
}

/// The prefix length counts the ones of all four bytes of a mask: none for no
/// mask, and one more for each bit that is set in addition, whatever its byte.
pub proof fn prefixes_count_every_bit(mask: Ipv4Address)
    ensures
        prefix_length(Ipv4Address { a: 0, b: 0, c: 0, d: 0 }) == 0,
        mask.a % 2 == 0 ==> prefix_length(Ipv4Address { a: (mask.a + 1) as u8, ..mask })
            == prefix_length(mask) + 1,
        mask.b % 2 == 0 ==> prefix_length(Ipv4Address { b: (mask.b + 1) as u8, ..mask })
            == prefix_length(mask) + 1,
        mask.c % 2 == 0 ==> prefix_length(Ipv4Address { c: (mask.c + 1) as u8, ..mask })
            == prefix_length(mask) + 1,
        mask.d % 2 == 0 ==> prefix_length(Ipv4Address { d: (mask.d + 1) as u8, ..mask })
            == prefix_length(mask) + 1,
        mask.a < 128 ==> prefix_length(Ipv4Address { a: (2 * mask.a) as u8, ..mask })
            == prefix_length(mask),
        mask.b < 128 ==> prefix_length(Ipv4Address { b: (2 * mask.b) as u8, ..mask })
            == prefix_length(mask),
        mask.c < 128 ==> prefix_length(Ipv4Address { c: (2 * mask.c) as u8, ..mask })
            == prefix_length(mask),
        mask.d < 128 ==> prefix_length(Ipv4Address { d: (2 * mask.d) as u8, ..mask })
            == prefix_length(mask),
{
    lemma_ones_steps(mask.a as nat);
    lemma_ones_steps(mask.b as nat);
    lemma_ones_steps(mask.c as nat);
    lemma_ones_steps(mask.d as nat);
}

proof fn lemma_ones_steps(n: nat)
    ensures
        ones(0) == 0,
        n % 2 == 0 ==> ones(n + 1) == ones(n) + 1,
        ones(2 * n) == ones(n),
{
    assert((n + 1) / 2 == n / 2 || n % 2 != 0);
    assert((2 * n) / 2 == n);
    assert((2 * n) % 2 == 0);
}

/// An address is written byte after byte, the first byte first, with dots
/// between them.
pub proof fn addresses_are_written_in_order(address: Ipv4Address)
    ensures
        ({
            let front = decimal(address.a as nat) + utf8(".");
            let back = utf8(".") + decimal(address.d as nat);
            &&& address.text().take(front.len() as int) == front
            &&& address.text().skip(address.text().len() - back.len()) == back
            &&& address.text() == front + decimal(address.b as nat) + utf8(".") + decimal(
                address.c as nat,
            ) + back
        }),
{
    let front = decimal(address.a as nat) + utf8(".");
    let back = utf8(".") + decimal(address.d as nat);
    let middle = decimal(address.b as nat) + utf8(".") + decimal(address.c as nat);
    assert(address.text() =~= front + middle + back);
    assert(address.text() =~= front + decimal(address.b as nat) + utf8(".") + decimal(
        address.c as nat,
    ) + back);
    assert(address.text().take(front.len() as int) =~= front);
    assert(address.text().skip(address.text().len() - back.len()) =~= back);
}

/// The boot report names the address once there is one, and behind it the
/// prefix length of the mask.
pub proof fn the_boot_report_names_the_address(status: NetworkStatus)
    ensures
        status.address is None ==> boot_label(status) == utf8("Configuring network"),
        (status.address matches Some(address) ==> {
            let named = utf8("Configuring network") + utf8(": ") + address.text();
            &&& status.subnet_mask is None ==> boot_label(status) == named
            &&& (status.subnet_mask matches Some(mask) ==> boot_label(status) == named + utf8("/")
                + decimal(prefix_length(mask)))
        }),
{
}

} // verus!
