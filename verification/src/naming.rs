//! Names and addresses this host announces: the DNS host label, the
//! instance id, the display name, and the mDNS service record's contents.
use vstd::prelude::*;
use crate::discovery::{key_capabilities, key_display_name, key_instance_id, key_port};
use crate::net::{IpAddress, SocketAddress};
use crate::text::{
    ascii_alphanumeric, ascii_lowercase, chars_of, decimal, hex, is_ascii_alphanumeric, join,
    join_strings, lemma_lead_len_bound, lemma_trail_len_bound, lemma_trim_class_noop, push_hex,
    string_of_range, to_ascii_lowercase, trim_bounds, trim_class, views, CharClass,
    decimal_string,
};

verus! {

// ---------------------------------------------------------------------------
// DNS labels
// ---------------------------------------------------------------------------

/// ASCII letters and digits become lower case, `-` stays, anything else
/// becomes `-`.
pub open spec fn dns_char(c: char) -> char {
    if is_ascii_alphanumeric(c) || c == '-' {
        ascii_lowercase(c)
    } else {
        '-'
    }
}

pub open spec fn dns_chars(s: Seq<char>) -> Seq<char> {
    s.map_values(|c: char| dns_char(c))
}

pub open spec fn at_most(s: Seq<char>, n: nat) -> Seq<char> {
    if s.len() > n {
        s.take(n as int)
    } else {
        s
    }
}

pub open spec fn fallback_label() -> Seq<char> {
    "kagami"@
}

/// `t`, or `kagami` when `t` is empty.
pub open spec fn or_fallback(t: Seq<char>) -> Seq<char> {
    if t.len() == 0 {
        fallback_label()
    } else {
        t
    }
}

/// The DNS label for a host name: mapped by `dns_char`, cut to 63
/// characters, stripped of leading and trailing `-`; `kagami` if nothing is
/// left.
pub open spec fn dns_label(s: Seq<char>) -> Seq<char> {
    or_fallback(trim_class(at_most(dns_chars(s), 63), CharClass::Exactly('-')))
}

pub open spec fn is_label_char(c: char) -> bool {
    ('a' <= c <= 'z') || ('0' <= c <= '9') || c == '-'
}

/// A valid DNS label: 1 to 63 characters from `[a-z0-9-]`, neither first
/// nor last being `-`.
pub open spec fn is_dns_label(s: Seq<char>) -> bool {
    &&& 1 <= s.len() <= 63
    &&& forall|i: int| 0 <= i < s.len() ==> is_label_char(#[trigger] s[i])
    &&& s[0] != '-'
    &&& s.last() != '-'
}

fn dns_char_exec(c: char) -> (r: char)
    ensures
        r == dns_char(c),
{
    if ascii_alphanumeric(c) || c == '-' {
        to_ascii_lowercase(c)
    } else {
        '-'
    }
}

/// `s` mapped by `dns_char`.
fn map_dns_chars(s: &str) -> (v: Vec<char>)
    ensures
        v@ == dns_chars(s@),
{
    let src = chars_of(s);
    let mut v: Vec<char> = Vec::new();
    let mut i: usize = 0;
    while i < src.len()
        invariant
            i <= src@.len(),
            src@ == s@,
            v@ == dns_chars(s@).take(i as int),
        decreases src@.len() - i,
    {
        v.push(dns_char_exec(src[i]));
        i = i + 1;
        assert(v@ =~= dns_chars(s@).take(i as int));
    }
    assert(dns_chars(s@).take(i as int) =~= dns_chars(s@));
    v
}

fn fallback() -> (r: String)
    ensures
        r@ == fallback_label(),
{
    "kagami".to_owned()
}

/// `v` stripped of leading and trailing `-`, or `kagami` if nothing is left.
fn trimmed_or_fallback(v: &Vec<char>) -> (r: String)
    ensures
        r@ == or_fallback(trim_class(v@, CharClass::Exactly('-'))),
{
    let (i, j) = trim_bounds(v, CharClass::Exactly('-'));
    if i == j {
        proof {
            if crate::text::lead_len(v@, CharClass::Exactly('-')) < v@.len() {
                assert(false);
            }
        }
        fallback()
    } else {
        string_of_range(v, i, j)
    }
}

/// The DNS label for a host name.
pub fn sanitize_dns_label(value: &str) -> (r: String)
    ensures
        r@ == dns_label(value@),
{
    let mut v = map_dns_chars(value);
    if v.len() > 63 {
        v.truncate(63);
    }
    trimmed_or_fallback(&v)
}

proof fn lemma_dns_char_is_label_char(c: char)
    ensures
        is_label_char(dns_char(c)),
{
}

/// Whatever the host name, `sanitize_dns_label` gives a valid DNS label.
pub proof fn lemma_dns_label_valid(s: Seq<char>)
    ensures
        is_dns_label(dns_label(s)),
{
    let m = at_most(dns_chars(s), 63);
    let cls = CharClass::Exactly('-');
    assert forall|i: int| 0 <= i < m.len() implies is_label_char(#[trigger] m[i]) by {
        lemma_dns_char_is_label_char(s[i]);
    }
    let t = trim_class(m, cls);
    if t.len() == 0 {
        reveal_strlit("kagami");
    } else {
        lemma_lead_len_bound(m, cls);
        lemma_trail_len_bound(m, cls);
        let a = crate::text::lead_len(m, cls);
        let b = crate::text::trail_len(m, cls);
        assert(a < m.len());
        assert(t[0] == m[a as int]);
        assert(t.last() == m[m.len() - b - 1]);
    }
}

/// A label is its own DNS label: sanitizing twice gives what sanitizing once
/// gives.
pub proof fn lemma_dns_label_idempotent(s: Seq<char>)
    ensures
        dns_label(dns_label(s)) == dns_label(s),
{
    let r = dns_label(s);
    lemma_dns_label_valid(s);
    assert(dns_chars(r) =~= r);
    assert(at_most(r, 63) == r);
    lemma_trim_class_noop(r, CharClass::Exactly('-'));
}

// ---------------------------------------------------------------------------
// Host identity
// ---------------------------------------------------------------------------

/// The first present value among `a`, `b`, or `default`.
pub open spec fn first_present(a: Option<Seq<char>>, b: Option<Seq<char>>, default: Seq<char>) -> Seq<char> {
    match a {
        Some(v) => v,
        None => match b {
            Some(v) => v,
            None => default,
        },
    }
}

pub open spec fn ov(o: Option<String>) -> Option<Seq<char>> {
    match o {
        Some(s) => Some(s@),
        None => None,
    }
}

/// This host's display name, from the `HOSTNAME`, `COMPUTERNAME` and `USER`
/// variables in that order, or `Kagami`.
pub fn display_name_from(hostname: Option<String>, computername: Option<String>, user: Option<String>) -> (r:
    String)
    ensures
        r@ == first_present(ov(hostname), ov(computername), first_present(ov(user), None, "Kagami"@)),
{
    match hostname {
        Some(v) => v,
        None => match computername {
            Some(v) => v,
            None => match user {
                Some(v) => v,
                None => "Kagami".to_owned(),
            },
        },
    }
}

/// This host's name before sanitizing, from `HOSTNAME` or `COMPUTERNAME`, or
/// `kagami`.
pub fn host_label_from(hostname: Option<String>, computername: Option<String>) -> (r: String)
    ensures
        r@ == first_present(ov(hostname), ov(computername), fallback_label()),
{
    match hostname {
        Some(v) => v,
        None => match computername {
            Some(v) => v,
            None => fallback(),
        },
    }
}

/// The instance id: the host name mapped by `dns_char` and stripped of
/// `-` at both ends (or `kagami`), a `-`, and the process id XOR the clock's
/// nanoseconds in lower-case hexadecimal.
pub open spec fn instance_id_text(host: Seq<char>, pid: u32, nanos: u64) -> Seq<char> {
    or_fallback(trim_class(dns_chars(host), CharClass::Exactly('-'))) + "-"@ + hex(
        ((pid as u64) ^ nanos) as nat,
    )
}

/// This instance's id, from the host name variables, the process id and
/// the clock's nanoseconds since the epoch.
pub fn instance_id_from(hostname: Option<String>, computername: Option<String>, pid: u32, nanos: u64) -> (r:
    String)
    ensures
        r@ == instance_id_text(
            first_present(ov(hostname), ov(computername), fallback_label()),
            pid,
            nanos,
        ),
{
    let host = host_label_from(hostname, computername);
    let v = map_dns_chars(host.as_str());
    let mut r = trimmed_or_fallback(&v);
    r.append("-");
    let bits: u64 = (pid as u64) ^ nanos;
    push_hex(&mut r, bits);
    r
}

/// The addresses to announce: the address the probe socket was given, unless
/// it is unspecified or loopback; otherwise `127.0.0.1`.
pub open spec fn announced_addresses(probe: Option<IpAddress>) -> Seq<IpAddress> {
    match probe {
        Some(ip) => if !ip.spec_is_unspecified() && !ip.spec_is_loopback() {
            seq![ip]
        } else {
            seq![IpAddress::V4([127u8, 0u8, 0u8, 1u8])]
        },
        None => seq![IpAddress::V4([127u8, 0u8, 0u8, 1u8])],
    }
}

/// The addresses to announce, given the local address of a probe socket.
pub fn local_addresses_from(probe: Option<IpAddress>) -> (r: Vec<IpAddress>)
    ensures
        r@ == announced_addresses(probe),
{
    let mut r: Vec<IpAddress> = Vec::new();
    match probe {
        Some(ip) => {
            if !ip.is_unspecified() && !ip.is_loopback() {
                r.push(ip);
            }
        },
        None => {},
    }
    if r.len() == 0 {
        r.push(IpAddress::V4([127, 0, 0, 1]));
    }
    assert(r@ =~= announced_addresses(probe));
    r
}

// ---------------------------------------------------------------------------
// The announced service
// ---------------------------------------------------------------------------

/// What this host registers with mDNS.
pub struct ServiceAnnouncement {
    pub instance_name: String,
    pub host_name: String,
    pub properties: Vec<(String, String)>,
    pub listener_addrs: Vec<SocketAddress>,
}

pub open spec fn pair_views(v: Seq<(String, String)>) -> Seq<(Seq<char>, Seq<char>)> {
    v.map_values(|p: (String, String)| (p.0@, p.1@))
}

pub open spec fn with_port(addrs: Seq<IpAddress>, port: u16) -> Seq<SocketAddress> {
    addrs.map_values(|ip: IpAddress| SocketAddress { ip, port })
}

/// The service record of this host: instance `display_name-instance_id` on
/// host `label.local.`, listening on `port` at each address, with the
/// capabilities, display name, instance id and port as TXT properties.
pub fn service_announcement(
    display_name: &str,
    instance_id: &str,
    host_label: &str,
    capabilities: &Vec<String>,
    port: u16,
    addresses: &Vec<IpAddress>,
) -> (r: ServiceAnnouncement)
    ensures
        r.instance_name@ == display_name@ + "-"@ + instance_id@,
        r.host_name@ == dns_label(host_label@) + ".local."@,
        pair_views(r.properties@) == seq![
            (key_capabilities(), join(views(capabilities@), ","@)),
            (key_display_name(), display_name@),
            (key_instance_id(), instance_id@),
            (key_port(), decimal(port as nat)),
        ],
        r.listener_addrs@ == with_port(addresses@, port),
{
    let mut instance_name = display_name.to_owned();
    instance_name.append("-");
    instance_name.append(instance_id);
    let mut host_name = sanitize_dns_label(host_label);
    host_name.append(".local.");
    let mut properties: Vec<(String, String)> = Vec::new();
    properties.push(("capabilities".to_owned(), join_strings(capabilities, ",")));
    properties.push(("display-name".to_owned(), display_name.to_owned()));
    properties.push(("instance-id".to_owned(), instance_id.to_owned()));
    properties.push(("port".to_owned(), decimal_string(port as u64)));
    assert(pair_views(properties@) =~= seq![
        (key_capabilities(), join(views(capabilities@), ","@)),
        (key_display_name(), display_name@),
        (key_instance_id(), instance_id@),
        (key_port(), decimal(port as nat)),
    ]);
    let mut listener_addrs: Vec<SocketAddress> = Vec::new();
    let mut i: usize = 0;
    while i < addresses.len()
        invariant
            i <= addresses@.len(),
            listener_addrs@ == with_port(addresses@.take(i as int), port),
        decreases addresses@.len() - i,
    {
        listener_addrs.push(SocketAddress { ip: addresses[i], port });
        i = i + 1;
        assert(listener_addrs@ =~= with_port(addresses@.take(i as int), port));
    }
    assert(addresses@.take(i as int) =~= addresses@);
    ServiceAnnouncement { instance_name, host_name, properties, listener_addrs }
}

} // verus!
