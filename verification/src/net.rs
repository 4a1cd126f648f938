//! IP and socket addresses as plain values, with their textual forms.
use vstd::prelude::*;
use crate::text::{
    decimal, hex, join, lemma_decimal_digits, lemma_trim_class_noop, push_char, push_decimal,
    push_hex, trim, CharClass,
};

verus! {

broadcast use vstd::array::group_array_axioms;

/// An IPv4 address (four octets) or an IPv6 address (eight 16-bit segments).
#[derive(Clone, Copy, Debug)]
pub enum IpAddress {
    V4([u8; 4]),
    V6([u16; 8]),
}

/// An IP address and a port.
#[derive(Clone, Copy, Debug)]
pub struct SocketAddress {
    pub ip: IpAddress,
    pub port: u16,
}


// ---------------------------------------------------------------------------
// Textual forms
// ---------------------------------------------------------------------------

/// Dotted-decimal form of an IPv4 address.
pub open spec fn ipv4_text(o: Seq<u8>) -> Seq<char> {
    decimal(o[0] as nat) + seq!['.'] + decimal(o[1] as nat) + seq!['.'] + decimal(o[2] as nat)
        + seq!['.'] + decimal(o[3] as nat)
}

/// Segments in lower-case hexadecimal, separated by `:`.
pub open spec fn hex_groups(s: Seq<u16>) -> Seq<char> {
    join(s.map_values(|x: u16| hex(x as nat)), seq![':'])
}

/// Number of consecutive zero segments starting at `i`.
pub open spec fn zero_run(s: Seq<u16>, i: int) -> nat
    decreases s.len() - i,
{
    if 0 <= i < s.len() && s[i] == 0 {
        1 + zero_run(s, i + 1)
    } else {
        0
    }
}

/// Length of the longest run of zero segments at or after `i`.
pub open spec fn longest_zero_run(s: Seq<u16>, i: int) -> nat
    decreases s.len() - i,
{
    if 0 <= i < s.len() {
        let here = zero_run(s, i);
        let rest = longest_zero_run(s, i + 1);
        if here >= rest {
            here
        } else {
            rest
        }
    } else {
        0
    }
}

/// First index at or after `i` where a zero run of length `m` starts.
pub open spec fn first_run_of(s: Seq<u16>, i: int, m: nat) -> int
    decreases s.len() - i,
{
    if 0 <= i < s.len() {
        if zero_run(s, i) == m {
            i
        } else {
            first_run_of(s, i + 1, m)
        }
    } else {
        s.len() as int
    }
}

/// An IPv4-mapped IPv6 address (`::ffff:a.b.c.d`).
pub open spec fn is_v4_mapped(s: Seq<u16>) -> bool {
    s[0] == 0 && s[1] == 0 && s[2] == 0 && s[3] == 0 && s[4] == 0 && s[5] == 0xffff
}

/// The octets of the IPv4 address embedded in the last two segments.
pub open spec fn mapped_octets(s: Seq<u16>) -> Seq<u8> {
    seq![(s[6] / 256) as u8, (s[6] % 256) as u8, (s[7] / 256) as u8, (s[7] % 256) as u8]
}

/// Text of an IPv6 address as `Ipv6Addr`'s `Display` writes it: IPv4-mapped
/// addresses as `::ffff:a.b.c.d`; otherwise the first longest run of two or
/// more zero segments is written as `::`.
pub open spec fn ipv6_text(s: Seq<u16>) -> Seq<char> {
    if is_v4_mapped(s) {
        seq![':', ':', 'f', 'f', 'f', 'f', ':'] + ipv4_text(mapped_octets(s))
    } else {
        let m = longest_zero_run(s, 0);
        if m > 1 {
            let start = first_run_of(s, 0, m);
            hex_groups(s.subrange(0, start)) + seq![':', ':'] + hex_groups(
                s.subrange(start + m, s.len() as int),
            )
        } else {
            hex_groups(s)
        }
    }
}

impl IpAddress {
    pub open spec fn text(self) -> Seq<char> {
        match self {
            IpAddress::V4(o) => ipv4_text(o@),
            IpAddress::V6(s) => ipv6_text(s@),
        }
    }

    /// `0.0.0.0` or `::`.
    pub open spec fn spec_is_unspecified(self) -> bool {
        match self {
            IpAddress::V4(o) => o@ == seq![0u8, 0, 0, 0],
            IpAddress::V6(s) => s@ == seq![0u16, 0, 0, 0, 0, 0, 0, 0],
        }
    }

    /// `127.0.0.0/8` or `::1`.
    pub open spec fn spec_is_loopback(self) -> bool {
        match self {
            IpAddress::V4(o) => o[0] == 127,
            IpAddress::V6(s) => s@ == seq![0u16, 0, 0, 0, 0, 0, 0, 1],
        }
    }

    /// `Ipv4Addr::is_unspecified` / `Ipv6Addr::is_unspecified`.
    pub fn is_unspecified(&self) -> (r: bool)
        ensures
            r == self.spec_is_unspecified(),
    {
        match self {
            IpAddress::V4(o) => {
                let r = o[0] == 0 && o[1] == 0 && o[2] == 0 && o[3] == 0;
                proof {
                    if r {
                        assert(o@ =~= seq![0u8, 0, 0, 0]);
                    }
                }
                r
            },
            IpAddress::V6(s) => {
                let r = s[0] == 0 && s[1] == 0 && s[2] == 0 && s[3] == 0 && s[4] == 0 && s[5] == 0
                    && s[6] == 0 && s[7] == 0;
                proof {
                    if r {
                        assert(s@ =~= seq![0u16, 0, 0, 0, 0, 0, 0, 0]);
                    }
                }
                r
            },
        }
    }

    /// `Ipv4Addr::is_loopback` / `Ipv6Addr::is_loopback`.
    pub fn is_loopback(&self) -> (r: bool)
        ensures
            r == self.spec_is_loopback(),
    {
        match self {
            IpAddress::V4(o) => o[0] == 127,
            IpAddress::V6(s) => {
                let r = s[0] == 0 && s[1] == 0 && s[2] == 0 && s[3] == 0 && s[4] == 0 && s[5] == 0
                    && s[6] == 0 && s[7] == 1;
                proof {
                    if r {
                        assert(s@ =~= seq![0u16, 0, 0, 0, 0, 0, 0, 1]);
                    }
                }
                r
            },
        }
    }

    /// Whether two addresses are the same.
    pub fn same_as(&self, other: &IpAddress) -> (r: bool)
        ensures
            r == (*self == *other),
    {
        match (self, other) {
            (IpAddress::V4(a), IpAddress::V4(b)) => {
                let r = a[0] == b[0] && a[1] == b[1] && a[2] == b[2] && a[3] == b[3];
                proof {
                    if r {
                        assert(*a =~= *b);
                    }
                }
                r
            },
            (IpAddress::V6(a), IpAddress::V6(b)) => {
                let r = a[0] == b[0] && a[1] == b[1] && a[2] == b[2] && a[3] == b[3] && a[4]
                    == b[4] && a[5] == b[5] && a[6] == b[6] && a[7] == b[7];
                proof {
                    if r {
                        assert(*a =~= *b);
                    }
                }
                r
            },
            _ => false,
        }
    }

    /// The textual form (`IpAddr::to_string`).
    pub fn to_text(&self) -> (r: String)
        ensures
            r@ == self.text(),
    {
        let mut r = String::new();
        match self {
            IpAddress::V4(o) => push_ipv4(&mut r, o),
            IpAddress::V6(s) => push_ipv6(&mut r, s),
        }
        assert(r@ =~= self.text());
        r
    }
}

impl SocketAddress {
    /// `SocketAddr`'s `Display`: `a.b.c.d:port`, or `[ipv6]:port`.
    pub open spec fn text(self) -> Seq<char> {
        match self.ip {
            IpAddress::V4(_) => self.ip.text() + seq![':'] + decimal(self.port as nat),
            IpAddress::V6(_) => seq!['['] + self.ip.text() + seq![']', ':'] + decimal(
                self.port as nat,
            ),
        }
    }

    /// Whether two socket addresses are the same.
    pub fn same_as(&self, other: &SocketAddress) -> (r: bool)
        ensures
            r == (*self == *other),
    {
        self.port == other.port && self.ip.same_as(&other.ip)
    }

    /// The textual form (`SocketAddr::to_string`).
    pub fn to_text(&self) -> (r: String)
        ensures
            r@ == self.text(),
    {
        let mut r = String::new();
        push_socket_address(&mut r, self);
        assert(r@ =~= self.text());
        r
    }
}

/// Appends the textual form of a socket address.
pub fn push_socket_address(r: &mut String, a: &SocketAddress)
    ensures
        final(r)@ == old(r)@ + a.text(),
{
    match &a.ip {
        IpAddress::V4(o) => {
            push_ipv4(r, o);
            push_char(r, ':');
        },
        IpAddress::V6(s) => {
            push_char(r, '[');
            push_ipv6(r, s);
            push_char(r, ']');
            push_char(r, ':');
        },
    }
    push_decimal(r, a.port as u64);
    assert(final(r)@ =~= old(r)@ + a.text());
}

fn push_ipv4(r: &mut String, o: &[u8; 4])
    ensures
        final(r)@ == old(r)@ + ipv4_text(o@),
{
    push_decimal(r, o[0] as u64);
    push_char(r, '.');
    push_decimal(r, o[1] as u64);
    push_char(r, '.');
    push_decimal(r, o[2] as u64);
    push_char(r, '.');
    push_decimal(r, o[3] as u64);
    assert(final(r)@ =~= old(r)@ + ipv4_text(o@));
}

/// Appends `s[from..to]` as hexadecimal groups separated by `:`.
fn push_hex_groups(r: &mut String, s: &[u16; 8], from: usize, to: usize)
    requires
        from <= to <= 8,
    ensures
        final(r)@ == old(r)@ + hex_groups(s@.subrange(from as int, to as int)),
{
    let ghost start = r@;
    let mut i = from;
    while i < to
        invariant
            from <= i <= to <= 8,
            s@.len() == 8,
            r@ == start + hex_groups(s@.subrange(from as int, i as int)),
        decreases to - i,
    {
        let ghost parts = s@.subrange(from as int, i as int).map_values(|x: u16| hex(x as nat));
        let ghost next = s@.subrange(from as int, i + 1).map_values(|x: u16| hex(x as nat));
        assert(next.drop_last() =~= parts);
        if i > from {
            push_char(r, ':');
        } else {
            assert(r@ =~= start);
        }
        push_hex(r, s[i] as u64);
        i = i + 1;
        assert(r@ =~= start + hex_groups(s@.subrange(from as int, i as int)));
    }
}

proof fn lemma_zero_run_bound(s: Seq<u16>, i: int)
    requires
        0 <= i <= s.len(),
    ensures
        zero_run(s, i) <= s.len() - i,
        forall|k: int| i <= k < i + zero_run(s, i) ==> s[k] == 0,
        i + zero_run(s, i) < s.len() ==> s[i + zero_run(s, i)] != 0,
    decreases s.len() - i,
{
    if i < s.len() && s[i] == 0 {
        lemma_zero_run_bound(s, i + 1);
    }
}

proof fn lemma_zero_run_exact(s: Seq<u16>, i: int, j: int)
    requires
        0 <= i <= j <= s.len(),
        forall|k: int| i <= k < j ==> s[k] == 0,
        j == s.len() || s[j] != 0,
    ensures
        zero_run(s, i) == j - i,
    decreases j - i,
{
    if i < j {
        lemma_zero_run_exact(s, i + 1, j);
    }
}

/// Length of the run of zero segments starting at `i`.
fn zero_run_at(s: &[u16; 8], i: usize) -> (n: usize)
    requires
        i <= 8,
    ensures
        n == zero_run(s@, i as int),
        i + n <= 8,
{
    let mut j = i;
    while j < 8 && s[j] == 0
        invariant
            i <= j <= 8,
            s@.len() == 8,
            forall|k: int| i <= k < j ==> s@[k] == 0,
        decreases 8 - j,
    {
        j = j + 1;
    }
    proof {
        lemma_zero_run_exact(s@, i as int, j as int);
    }
    j - i
}

/// The longest zero run and where it first starts.
fn longest_run(s: &[u16; 8]) -> (r: (usize, usize))
    ensures
        r.1 == longest_zero_run(s@, 0),
        r.1 > 0 ==> r.0 == first_run_of(s@, 0, r.1 as nat),
        r.0 + r.1 <= 8,
{
    // Scan from the end so that the first start of the longest run wins.
    let mut best_len: usize = 0;
    let mut best_start: usize = 8;
    let mut i: usize = 8;
    while i > 0
        invariant
            i <= 8,
            s@.len() == 8,
            best_len == longest_zero_run(s@, i as int),
            best_len > 0 ==> best_start == first_run_of(s@, i as int, best_len as nat),
            best_len > 0 ==> best_start + best_len <= 8,
            best_len == 0 ==> best_start == 8,
        decreases i,
    {
        i = i - 1;
        let here = zero_run_at(s, i);
        proof {
            if best_len > 0 && here < best_len {
                lemma_first_run_shift(s@, i as int, best_len as nat);
            }
        }
        if here >= best_len && here > 0 {
            best_len = here;
            best_start = i;
        }
    }
    if best_len == 0 {
        (0, 0)
    } else {
        (best_start, best_len)
    }
}

proof fn lemma_first_run_shift(s: Seq<u16>, i: int, m: nat)
    requires
        0 <= i < s.len(),
        m > 0,
        zero_run(s, i) < m,
    ensures
        first_run_of(s, i, m) == first_run_of(s, i + 1, m),
{
}

fn push_ipv6(r: &mut String, s: &[u16; 8])
    ensures
        final(r)@ == old(r)@ + ipv6_text(s@),
{
    let ghost start = r@;
    if s[0] == 0 && s[1] == 0 && s[2] == 0 && s[3] == 0 && s[4] == 0 && s[5] == 0xffff {
        push_char(r, ':');
        push_char(r, ':');
        push_char(r, 'f');
        push_char(r, 'f');
        push_char(r, 'f');
        push_char(r, 'f');
        push_char(r, ':');
        let o: [u8; 4] = [(s[6] / 256) as u8, (s[6] % 256) as u8, (s[7] / 256) as u8, (s[7]
            % 256) as u8];
        assert(o@ =~= mapped_octets(s@));
        push_ipv4(r, &o);
        assert(r@ =~= start + ipv6_text(s@));
    } else {
        let (zstart, zlen) = longest_run(s);
        if zlen > 1 {
            push_hex_groups(r, s, 0, zstart);
            push_char(r, ':');
            push_char(r, ':');
            push_hex_groups(r, s, zstart + zlen, 8);
            assert(r@ =~= start + ipv6_text(s@));
        } else {
            push_hex_groups(r, s, 0, 8);
            assert(s@.subrange(0, 8) =~= s@);
            assert(r@ =~= start + ipv6_text(s@));
        }
    }
}

/// The text of a socket address is not empty and has no white space at
/// either end, so trimming leaves it as it is.
pub proof fn lemma_socket_text_trimmed(a: SocketAddress)
    ensures
        a.text().len() > 0,
        trim(a.text()) == a.text(),
{
    let t = a.text();
    let p = decimal(a.port as nat);
    lemma_decimal_digits(a.port as nat);
    assert(t.last() == p.last());
    match a.ip {
        IpAddress::V4(o) => {
            lemma_decimal_digits(o@[0] as nat);
            assert(t[0] == decimal(o@[0] as nat)[0]);
        },
        IpAddress::V6(_) => {
            assert(t[0] == '[');
        },
    }
    lemma_trim_class_noop(t, CharClass::WhiteSpace);
}

} // verus!
