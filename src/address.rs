use vstd::arithmetic::power2::{lemma2_to64, lemma2_to64_rest, lemma_pow2_adds, pow2};
use vstd::prelude::*;

verus! {

/// An IPv4 address as its four octets, most significant first.
#[derive(Clone, Copy, Debug, PartialEq, Eq, Structural, Hash)]
pub struct Ipv4Addr(pub u8, pub u8, pub u8, pub u8);

/// An IPv6 address as its eight 16-bit groups, most significant first.
#[derive(Clone, Copy, Debug, PartialEq, Eq, Structural, Hash)]
pub struct Ipv6Addr(pub u16, pub u16, pub u16, pub u16, pub u16, pub u16, pub u16, pub u16);

/// An address of either family.
#[derive(Clone, Copy, Debug, PartialEq, Eq, Structural, Hash)]
pub enum IpAddr {
    V4(Ipv4Addr),
    V6(Ipv6Addr),
}

impl Ipv4Addr {
    /// The address as a 32-bit number.
    pub open spec fn value(self) -> nat {
        self.0 as nat * 16777216 + self.1 as nat * 65536 + self.2 as nat * 256 + self.3 as nat
    }
}

impl Ipv6Addr {
    pub open spec fn groups(self) -> Seq<u16> {
        seq![self.0, self.1, self.2, self.3, self.4, self.5, self.6, self.7]
    }

    /// The address as a 128-bit number.
    pub open spec fn value(self) -> nat {
        self.0 as nat * 0x1_0000_0000_0000_0000_0000_0000_0000
            + self.1 as nat * 0x1_0000_0000_0000_0000_0000_0000
            + self.2 as nat * 0x1_0000_0000_0000_0000_0000
            + self.3 as nat * 0x1_0000_0000_0000_0000
            + self.4 as nat * 0x1_0000_0000_0000
            + self.5 as nat * 0x1_0000_0000
            + self.6 as nat * 0x1_0000
            + self.7 as nat
    }
}

impl IpAddr {
    pub open spec fn is_v4(self) -> bool {
        self is V4
    }

    pub open spec fn is_v6(self) -> bool {
        self is V6
    }

    pub fn is_ipv4(&self) -> (r: bool)
        ensures
            r == self.is_v4(),
    {
        match self {
            IpAddr::V4(_) => true,
            IpAddr::V6(_) => false,
        }
    }

    pub fn is_ipv6(&self) -> (r: bool)
        ensures
            r == self.is_v6(),
    {
        match self {
            IpAddr::V4(_) => false,
            IpAddr::V6(_) => true,
        }
    }
}

// ---------------------------------------------------------------------------
// Network blocks
// ---------------------------------------------------------------------------

/// `v` lies in the block of `width`-bit numbers that starts at `base` and has
/// the given prefix length (`base` is aligned to the block).
pub open spec fn in_block(v: nat, base: nat, prefix: nat, width: nat) -> bool {
    base <= v < base + pow2((width - prefix) as nat)
}

pub open spec fn v4_base(a: nat, b: nat, c: nat, d: nat) -> nat {
    a * 16777216 + b * 65536 + c * 256 + d
}

/// The fixed list of non-public ranges: current network, private, shared,
/// loopback, link-local, special purpose, documentation, benchmarking,
/// multicast, reserved and broadcast for IPv4; loopback, unique local,
/// link-local and multicast for IPv6.
pub open spec fn is_private_spec(ip: IpAddr) -> bool {
    match ip {
        IpAddr::V4(a) => {
            let v = a.value();
            ||| in_block(v, v4_base(0, 0, 0, 0), 8, 32)
            ||| in_block(v, v4_base(10, 0, 0, 0), 8, 32)
            ||| in_block(v, v4_base(100, 64, 0, 0), 10, 32)
            ||| in_block(v, v4_base(127, 0, 0, 0), 8, 32)
            ||| in_block(v, v4_base(169, 254, 0, 0), 16, 32)
            ||| in_block(v, v4_base(172, 16, 0, 0), 12, 32)
            ||| in_block(v, v4_base(192, 0, 0, 0), 24, 32)
            ||| in_block(v, v4_base(192, 0, 2, 0), 24, 32)
            ||| in_block(v, v4_base(192, 168, 0, 0), 16, 32)
            ||| in_block(v, v4_base(198, 18, 0, 0), 15, 32)
            ||| in_block(v, v4_base(198, 51, 100, 0), 24, 32)
            ||| in_block(v, v4_base(203, 0, 113, 0), 24, 32)
            ||| in_block(v, v4_base(224, 0, 0, 0), 4, 32)
            ||| in_block(v, v4_base(240, 0, 0, 0), 4, 32)
            ||| in_block(v, v4_base(255, 255, 255, 255), 32, 32)
        },
        IpAddr::V6(a) => {
            let v = a.value();
            ||| in_block(v, 1, 128, 128)
            ||| in_block(v, 0xfc00_0000_0000_0000_0000_0000_0000_0000, 7, 128)
            ||| in_block(v, 0xfe80_0000_0000_0000_0000_0000_0000_0000, 10, 128)
            ||| in_block(v, 0xff00_0000_0000_0000_0000_0000_0000_0000, 8, 128)
        },
    }
}

fn ipv4_value(a: &Ipv4Addr) -> (r: u128)
    ensures
        r as nat == a.value(),
{
    (a.0 as u128) * 16777216 + (a.1 as u128) * 65536 + (a.2 as u128) * 256 + (a.3 as u128)
}

fn ipv6_value(a: &Ipv6Addr) -> (r: u128)
    ensures
        r as nat == a.value(),
{
    (a.0 as u128) * 0x1_0000_0000_0000_0000_0000_0000_0000 + (a.1 as u128)
        * 0x1_0000_0000_0000_0000_0000_0000 + (a.2 as u128) * 0x1_0000_0000_0000_0000_0000 + (
    a.3 as u128) * 0x1_0000_0000_0000_0000 + (a.4 as u128) * 0x1_0000_0000_0000 + (a.5 as u128)
        * 0x1_0000_0000 + (a.6 as u128) * 0x1_0000 + (a.7 as u128)
}

/// `base <= v < base + size`, without overflow.
fn within(v: u128, base: u128, size: u128) -> (r: bool)
    ensures
        r == (base <= v < base + size),
{
    v >= base && v - base < size
}

/// The sizes of the blocks that the non-public ranges use.
pub proof fn lemma_block_sizes()
    ensures
        pow2(0) == 1,
        pow2(4) == 16,
        pow2(8) == 256,
        pow2(16) == 65536,
        pow2(17) == 131072,
        pow2(20) == 1048576,
        pow2(22) == 4194304,
        pow2(24) == 16777216,
        pow2(28) == 268435456,
        pow2(118) == 0x40_0000_0000_0000_0000_0000_0000_0000,
        pow2(120) == 0x100_0000_0000_0000_0000_0000_0000_0000,
        pow2(121) == 0x200_0000_0000_0000_0000_0000_0000_0000,
{
    lemma2_to64();
    lemma2_to64_rest();
    lemma_pow2_adds(64, 54);
    lemma_pow2_adds(64, 56);
    lemma_pow2_adds(64, 57);
}

/// Whether the address falls in one of the non-public ranges.
pub fn is_private_ip(ip: &IpAddr) -> (r: bool)
    ensures
        r == is_private_spec(*ip),
{
    proof {
        lemma_block_sizes();
    }
    match ip {
        IpAddr::V4(a) => {
            let v = ipv4_value(a);
            within(v, 0x0000_0000, 0x100_0000) || within(v, 0x0a00_0000, 0x100_0000) || within(
                v,
                0x6440_0000,
                0x40_0000,
            ) || within(v, 0x7f00_0000, 0x100_0000) || within(v, 0xa9fe_0000, 0x1_0000)
                || within(v, 0xac10_0000, 0x10_0000) || within(v, 0xc000_0000, 0x100) || within(
                v,
                0xc000_0200,
                0x100,
            ) || within(v, 0xc0a8_0000, 0x1_0000) || within(v, 0xc612_0000, 0x2_0000) || within(
                v,
                0xc633_6400,
                0x100,
            ) || within(v, 0xcb00_7100, 0x100) || within(v, 0xe000_0000, 0x1000_0000) || within(
                v,
                0xf000_0000,
                0x1000_0000,
            ) || within(v, 0xffff_ffff, 1)
        },
        IpAddr::V6(a) => {
            let v = ipv6_value(a);
            within(v, 1, 1) || within(
                v,
                0xfc00_0000_0000_0000_0000_0000_0000_0000,
                0x200_0000_0000_0000_0000_0000_0000_0000,
            ) || within(
                v,
                0xfe80_0000_0000_0000_0000_0000_0000_0000,
                0x40_0000_0000_0000_0000_0000_0000_0000,
            ) || within(
                v,
                0xff00_0000_0000_0000_0000_0000_0000_0000,
                0x100_0000_0000_0000_0000_0000_0000_0000,
            )
        },
    }
}

// ---------------------------------------------------------------------------
// Text form
// ---------------------------------------------------------------------------

pub open spec fn digit_char(d: nat) -> char {
    if d == 0 {
        '0'
    } else if d == 1 {
        '1'
    } else if d == 2 {
        '2'
    } else if d == 3 {
        '3'
    } else if d == 4 {
        '4'
    } else if d == 5 {
        '5'
    } else if d == 6 {
        '6'
    } else if d == 7 {
        '7'
    } else if d == 8 {
        '8'
    } else if d == 9 {
        '9'
    } else if d == 10 {
        'a'
    } else if d == 11 {
        'b'
    } else if d == 12 {
        'c'
    } else if d == 13 {
        'd'
    } else if d == 14 {
        'e'
    } else {
        'f'
    }
}

/// `n` written in the given base, lower-case, without leading zeros.
pub open spec fn digits(n: nat, base: nat) -> Seq<char>
    decreases n,
{
    if !(base == 10 || base == 16) || n < base {
        seq![digit_char(n)]
    } else {
        digits(n / base, base) + seq![digit_char(n % base)]
    }
}

/// Dotted decimal: `a.b.c.d`.
pub open spec fn v4_text(a: Ipv4Addr) -> Seq<char> {
    digits(a.0 as nat, 10) + seq!['.'] + digits(a.1 as nat, 10) + seq!['.'] + digits(a.2 as nat, 10)
        + seq!['.'] + digits(a.3 as nat, 10)
}

/// Groups in hexadecimal, separated by colons.
pub open spec fn groups_text(g: Seq<u16>) -> Seq<char>
    decreases g.len(),
{
    if g.len() == 0 {
        seq![]
    } else if g.len() == 1 {
        digits(g[0] as nat, 16)
    } else {
        groups_text(g.drop_last()) + seq![':'] + digits(g.last() as nat, 16)
    }
}

/// Number of zero groups starting at position `i`.
pub open spec fn zero_run(g: Seq<u16>, i: int) -> nat
    decreases g.len() - i,
{
    if i < 0 || i >= g.len() || g[i] != 0 {
        0
    } else {
        1 + zero_run(g, i + 1)
    }
}

/// The first position among the first `n` whose zero run is longest.
pub open spec fn longest_zero_run(g: Seq<u16>, n: int) -> int
    decreases n,
{
    if n <= 1 {
        0
    } else {
        let b = longest_zero_run(g, n - 1);
        if zero_run(g, n - 1) > zero_run(g, b) {
            n - 1
        } else {
            b
        }
    }
}

/// An IPv4-mapped address `::ffff:a.b.c.d`.
pub open spec fn is_v4_mapped(a: Ipv6Addr) -> bool {
    a.0 == 0 && a.1 == 0 && a.2 == 0 && a.3 == 0 && a.4 == 0 && a.5 == 0xffff
}

pub open spec fn mapped_v4(a: Ipv6Addr) -> Ipv4Addr {
    Ipv4Addr((a.6 / 256) as u8, (a.6 % 256) as u8, (a.7 / 256) as u8, (a.7 % 256) as u8)
}

/// The usual compressed form: an IPv4-mapped address ends in dotted
/// decimal; otherwise the first longest run of two or more zero groups is
/// written `::`.
pub open spec fn v6_text(a: Ipv6Addr) -> Seq<char> {
    if is_v4_mapped(a) {
        seq![':', ':', 'f', 'f', 'f', 'f', ':'] + v4_text(mapped_v4(a))
    } else {
        let g = a.groups();
        let s = longest_zero_run(g, 8);
        let l = zero_run(g, s);
        if l > 1 {
            groups_text(g.subrange(0, s)) + seq![':', ':'] + groups_text(g.subrange(s + l, 8))
        } else {
            groups_text(g)
        }
    }
}

/// The text form of an address, as written in a DNS record's content.
pub open spec fn ip_text(ip: IpAddr) -> Seq<char> {
    match ip {
        IpAddr::V4(a) => v4_text(a),
        IpAddr::V6(a) => v6_text(a),
    }
}

fn digit_str(d: u32) -> (r: &'static str)
    requires
        d < 16,
    ensures
        r@ == seq![digit_char(d as nat)],
{
    proof {
        reveal_strlit("0");
        reveal_strlit("1");
        reveal_strlit("2");
        reveal_strlit("3");
        reveal_strlit("4");
        reveal_strlit("5");
        reveal_strlit("6");
        reveal_strlit("7");
        reveal_strlit("8");
        reveal_strlit("9");
        reveal_strlit("a");
        reveal_strlit("b");
        reveal_strlit("c");
        reveal_strlit("d");
        reveal_strlit("e");
        reveal_strlit("f");
    }
    if d == 0 {
        "0"
    } else if d == 1 {
        "1"
    } else if d == 2 {
        "2"
    } else if d == 3 {
        "3"
    } else if d == 4 {
        "4"
    } else if d == 5 {
        "5"
    } else if d == 6 {
        "6"
    } else if d == 7 {
        "7"
    } else if d == 8 {
        "8"
    } else if d == 9 {
        "9"
    } else if d == 10 {
        "a"
    } else if d == 11 {
        "b"
    } else if d == 12 {
        "c"
    } else if d == 13 {
        "d"
    } else if d == 14 {
        "e"
    } else {
        "f"
    }
}

fn push_digits(out: &mut String, n: u32, base: u32)
    requires
        base == 10 || base == 16,
    ensures
        final(out)@ == old(out)@ + digits(n as nat, base as nat),
    decreases n,
{
    if n >= base {
        assert(n / base < n) by (nonlinear_arith)
            requires
                n >= base,
                base >= 2,
        ;
        push_digits(out, n / base, base);
    } else {
        assert(n % base == n) by (nonlinear_arith)
            requires
                n < base,
                base >= 2,
        ;
    }
    out.append(digit_str(n % base));
    proof {
        assert(final(out)@ =~= old(out)@ + digits(n as nat, base as nat));
    }
}

fn push_v4(out: &mut String, a: &Ipv4Addr)
    ensures
        final(out)@ == old(out)@ + v4_text(*a),
{
    proof {
        reveal_strlit(".");
    }
    push_digits(out, a.0 as u32, 10);
    out.append(".");
    push_digits(out, a.1 as u32, 10);
    out.append(".");
    push_digits(out, a.2 as u32, 10);
    out.append(".");
    push_digits(out, a.3 as u32, 10);
    proof {
        assert(final(out)@ =~= old(out)@ + v4_text(*a));
    }
}

/// Appends `groups_text(g[from..to])`.
fn push_groups(out: &mut String, g: &Vec<u16>, from: usize, to: usize)
    requires
        from <= to <= g@.len(),
    ensures
        final(out)@ == old(out)@ + groups_text(g@.subrange(from as int, to as int)),
{
    proof {
        reveal_strlit(":");
    }
    let mut i = from;
    while i < to
        invariant
            from <= i <= to <= g@.len(),
            out@ == old(out)@ + groups_text(g@.subrange(from as int, i as int)),
        decreases to - i,
    {
        let ghost before = out@;
        proof {
            reveal_strlit(":");
        }
        if i > from {
            out.append(":");
        }
        push_digits(out, g[i] as u32, 16);
        proof {
            let s = g@.subrange(from as int, i as int + 1);
            assert(s.drop_last() =~= g@.subrange(from as int, i as int));
            assert(s.last() == g@[i as int]);
            if i > from {
                assert(out@ =~= before + seq![':'] + digits(g@[i as int] as nat, 16));
            } else {
                assert(s.len() == 1);
                assert(g@.subrange(from as int, i as int).len() == 0);
                assert(out@ =~= before + digits(g@[i as int] as nat, 16));
            }
            assert(out@ =~= old(out)@ + groups_text(s));
        }
        i = i + 1;
    }
}

fn zero_run_at(g: &Vec<u16>, i: usize) -> (r: usize)
    requires
        i <= g@.len(),
    ensures
        r == zero_run(g@, i as int),
        r <= g@.len() - i,
    decreases g@.len() - i,
{
    if i >= g.len() || g[i] != 0 {
        0
    } else {
        1 + zero_run_at(g, i + 1)
    }
}

fn push_v6(out: &mut String, a: &Ipv6Addr)
    ensures
        final(out)@ == old(out)@ + v6_text(*a),
{
    proof {
        reveal_strlit("::ffff:");
        reveal_strlit("::");
    }
    if a.0 == 0 && a.1 == 0 && a.2 == 0 && a.3 == 0 && a.4 == 0 && a.5 == 0xffff {
        out.append("::ffff:");
        let m = Ipv4Addr((a.6 / 256) as u8, (a.6 % 256) as u8, (a.7 / 256) as u8, (a.7 % 256) as u8);
        push_v4(out, &m);
        proof {
            assert(final(out)@ =~= old(out)@ + v6_text(*a));
        }
        return ;
    }
    let g: Vec<u16> = vec![a.0, a.1, a.2, a.3, a.4, a.5, a.6, a.7];
    assert(g@ =~= a.groups());
    let mut best: usize = 0;
    let mut best_len: usize = zero_run_at(&g, 0);
    let mut i: usize = 1;
    while i < 8
        invariant
            1 <= i <= 8,
            g@ == a.groups(),
            best == longest_zero_run(g@, i as int),
            best < 8,
            best_len == zero_run(g@, best as int),
            best_len <= 8 - best,
        decreases 8 - i,
    {
        let l = zero_run_at(&g, i);
        if l > best_len {
            best = i;
            best_len = l;
        }
        i = i + 1;
    }
    if best_len > 1 {
        push_groups(out, &g, 0, best);
        out.append("::");
        push_groups(out, &g, best + best_len, 8);
    } else {
        push_groups(out, &g, 0, 8);
        assert(g@.subrange(0, 8) =~= g@);
    }
    proof {
        assert(final(out)@ =~= old(out)@ + v6_text(*a));
    }
}

/// The address in its usual text form.
pub fn ip_to_string(ip: &IpAddr) -> (r: String)
    ensures
        r@ == ip_text(*ip),
{
    let mut out = String::new();
    match ip {
        IpAddr::V4(a) => push_v4(&mut out, a),
        IpAddr::V6(a) => push_v6(&mut out, a),
    }
    out
}

} // verus!
