//! mDNS peer discovery: resolved service records, the peers built from them,
//! the directory of known peers, and what this host announces.
use vstd::prelude::*;
use mdns_sd::IntoTxtProperties;
use crate::net::{IpAddress, SocketAddress};
use crate::text::{
    chars_of, join, nonempty_fields, parse_u16, parse_u16_str, split_nonempty,
    string_of_range, trim_end_class, trim_end_matching, views, join_strings, CharClass,
};

verus! {

pub open spec fn service_type() -> Seq<char> {
    "_kagami._udp.local."@
}

pub open spec fn key_capabilities() -> Seq<char> {
    "capabilities"@
}

pub open spec fn key_display_name() -> Seq<char> {
    "display-name"@
}

pub open spec fn key_instance_id() -> Seq<char> {
    "instance-id"@
}

pub open spec fn key_port() -> Seq<char> {
    "port"@
}

/// The mDNS service type under which Kagami peers announce themselves.
pub fn kagami_service_type() -> (r: &'static str)
    ensures
        r@ == service_type(),
{
    "_kagami._udp.local."
}

// ---------------------------------------------------------------------------
// Resolved service records
// ---------------------------------------------------------------------------

/// One property of a TXT record: a key and an optional byte value.
#[derive(Clone, Debug)]
pub struct TxtEntry {
    pub key: String,
    pub value: Option<Vec<u8>>,
}

pub open spec fn txt_view(e: TxtEntry) -> (Seq<char>, Option<Seq<u8>>) {
    (e.key@, match e.value {
        Some(v) => Some(v@),
        None => None,
    })
}

pub open spec fn txt_views(v: Seq<TxtEntry>) -> Seq<(Seq<char>, Option<Seq<u8>>)> {
    v.map_values(|e: TxtEntry| txt_view(e))
}

/// The value that mdns-sd's `TxtProperties::get_property_val_str` returns for
/// `key` in a TXT record holding `entries`, in order.
pub uninterp spec fn txt_property_str(entries: Seq<(Seq<char>, Option<Seq<u8>>)>, key: Seq<char>) -> Option<Seq<char>>;

pub open spec fn opt_view(o: Option<String>) -> Option<Seq<char>> {
    match o {
        Some(s) => Some(s@),
        None => None,
    }
}

/// Looks up `key` in a TXT record with mdns-sd's
/// `TxtProperties::get_property_val_str`. The record is rebuilt from `entries`
/// in order; the result is what that function returns, named
/// `txt_property_str`. The crate matches keys without regard to case and
/// reads a missing or non-UTF-8 value as the empty string; that is not
/// stated here. An empty record holds no key.
#[verifier::external_body]
fn property_val_str(entries: &Vec<TxtEntry>, key: &str) -> (r: Option<String>)
    ensures
        opt_view(r) == txt_property_str(txt_views(entries@), key@),
        entries@.len() == 0 ==> r is None,
{
    let properties: Vec<mdns_sd::TxtProperty> = entries.iter().map(|e| match &e.value {
        Some(v) => mdns_sd::TxtProperty::from((e.key.as_str(), v.as_slice())),
        None => mdns_sd::TxtProperty::from(e.key.as_str()),
    }).collect();
    properties.into_txt_properties().get_property_val_str(key).map(|s| s.to_owned())
}

/// An address of a resolved service, as mdns-sd reports it.
#[derive(Clone, Copy, Debug)]
pub enum ScopedAddress {
    V4([u8; 4]),
    V6([u16; 8]),
    /// A kind of address that this client does not use.
    Unsupported,
}

/// A resolved service instance: names, port, addresses and TXT properties.
#[derive(Clone, Debug)]
pub struct ResolvedRecord {
    pub fullname: String,
    pub host: String,
    pub port: u16,
    pub addresses: Vec<ScopedAddress>,
    pub properties: Vec<TxtEntry>,
}

pub open spec fn scoped_ip(a: ScopedAddress) -> Option<IpAddress> {
    match a {
        ScopedAddress::V4(o) => Some(IpAddress::V4(o)),
        ScopedAddress::V6(s) => Some(IpAddress::V6(s)),
        ScopedAddress::Unsupported => None,
    }
}

/// The IP address of a scoped address, when it is IPv4 or IPv6.
pub fn scoped_ip_to_ip(address: &ScopedAddress) -> (r: Option<IpAddress>)
    ensures
        r == scoped_ip(*address),
{
    match address {
        ScopedAddress::V4(o) => Some(IpAddress::V4(*o)),
        ScopedAddress::V6(s) => Some(IpAddress::V6(*s)),
        ScopedAddress::Unsupported => None,
    }
}

/// The first usable IP address among `addrs`.
pub open spec fn first_ip(addrs: Seq<ScopedAddress>) -> Option<IpAddress>
    decreases addrs.len(),
{
    if addrs.len() == 0 {
        None
    } else {
        match scoped_ip(addrs[0]) {
            Some(ip) => Some(ip),
            None => first_ip(addrs.drop_first()),
        }
    }
}

fn find_ip(addrs: &Vec<ScopedAddress>) -> (r: Option<IpAddress>)
    ensures
        r == first_ip(addrs@),
{
    let mut i: usize = 0;
    assert(addrs@.skip(0) =~= addrs@);
    while i < addrs.len()
        invariant
            i <= addrs@.len(),
            first_ip(addrs@) == first_ip(addrs@.skip(i as int)),
        decreases addrs@.len() - i,
    {
        assert(addrs@.skip(i as int).drop_first() =~= addrs@.skip(i + 1));
        match scoped_ip_to_ip(&addrs[i]) {
            Some(ip) => {
                return Some(ip);
            },
            None => {},
        }
        i = i + 1;
    }
    assert(addrs@.skip(i as int) =~= Seq::<ScopedAddress>::empty());
    None
}

/// A property value that is present and not empty.
pub open spec fn nonempty(v: Option<Seq<char>>) -> Option<Seq<char>> {
    match v {
        Some(s) => if s.len() > 0 {
            Some(s)
        } else {
            None
        },
        None => None,
    }
}

/// The instance id a record announces: its non-empty `instance-id` property.
pub open spec fn record_instance_id(rec: ResolvedRecord) -> Option<Seq<char>> {
    nonempty(txt_property_str(txt_views(rec.properties@), key_instance_id()))
}

/// The non-empty `instance-id` property of a resolved record.
pub fn resolved_instance_id(record: &ResolvedRecord) -> (r: Option<String>)
    ensures
        opt_view(r) == record_instance_id(*record),
{
    instance_id_of(property_val_str(&record.properties, "instance-id"))
}

/// The instance id given the `instance-id` property that a lookup found:
/// the value when it is present and not empty.
pub fn instance_id_of(lookup: Option<String>) -> (r: Option<String>)
    ensures
        opt_view(r) == nonempty(opt_view(lookup)),
{
    match lookup {
        Some(s) => if !s.as_str().is_empty() {
            Some(s)
        } else {
            None
        },
        None => None,
    }
}

// ---------------------------------------------------------------------------
// Peers
// ---------------------------------------------------------------------------

/// Another Kagami instance found on the network.
#[derive(Debug)]
pub struct Peer {
    pub id: String,
    pub display_name: String,
    pub host_name: String,
    pub addr: SocketAddress,
    pub capabilities: Vec<String>,
}

pub struct PeerView {
    pub id: Seq<char>,
    pub display_name: Seq<char>,
    pub host_name: Seq<char>,
    pub addr: SocketAddress,
    pub capabilities: Seq<Seq<char>>,
}

impl View for Peer {
    type V = PeerView;

    open spec fn view(&self) -> PeerView {
        PeerView {
            id: self.id@,
            display_name: self.display_name@,
            host_name: self.host_name@,
            addr: self.addr,
            capabilities: views(self.capabilities@),
        }
    }
}

fn clone_strings(v: &Vec<String>) -> (r: Vec<String>)
    ensures
        views(r@) == views(v@),
{
    let mut r: Vec<String> = Vec::new();
    let mut i: usize = 0;
    while i < v.len()
        invariant
            i <= v@.len(),
            views(r@) == views(v@).take(i as int),
        decreases v@.len() - i,
    {
        let s = v[i].clone();
        let ghost before = r@;
        r.push(s);
        assert(r@ == before.push(s));
        assert(s@ == v@[i as int]@);
        assert(views(r@) =~= views(before).push(v@[i as int]@));
        assert(views(v@).take(i + 1) =~= views(v@).take(i as int).push(v@[i as int]@));
        i = i + 1;
        assert(views(r@) =~= views(v@).take(i as int));
    }
    assert(views(v@).take(v@.len() as int) =~= views(v@));
    r
}

impl Clone for Peer {
    fn clone(&self) -> (r: Peer)
        ensures
            r@ == self@,
    {
        Peer {
            id: self.id.clone(),
            display_name: self.display_name.clone(),
            host_name: self.host_name.clone(),
            addr: self.addr,
            capabilities: clone_strings(&self.capabilities),
        }
    }
}

/// Text of the capability list: the names joined by `, `, or
/// `No capabilities`.
pub open spec fn capabilities_text(caps: Seq<Seq<char>>) -> Seq<char> {
    if caps.len() == 0 {
        "No capabilities"@
    } else {
        join(caps, ", "@)
    }
}

/// `name (host) · address · capabilities`.
pub open spec fn peer_label(p: PeerView) -> Seq<char> {
    p.display_name + " ("@ + p.host_name + ") · "@ + p.addr.text() + " · "@ + capabilities_text(
        p.capabilities,
    )
}

impl Peer {
    /// The line that lists this peer.
    pub fn label(&self) -> (r: String)
        ensures
            r@ == peer_label(self@),
    {
        let mut r = String::new();
        r.append(self.display_name.as_str());
        r.append(" (");
        r.append(self.host_name.as_str());
        r.append(") · ");
        crate::net::push_socket_address(&mut r, &self.addr);
        r.append(" · ");
        if self.capabilities.len() == 0 {
            r.append("No capabilities");
        } else {
            let joined = join_strings(&self.capabilities, ", ");
            r.append(joined.as_str());
        }
        assert(r@ =~= peer_label(self@));
        r
    }
}

/// Index of the first `c` in `s`, or `s.len()`.
pub open spec fn first_index_of(s: Seq<char>, c: char) -> int
    decreases s.len(),
{
    if s.len() == 0 {
        0
    } else if s[0] == c {
        0
    } else {
        1 + first_index_of(s.drop_first(), c)
    }
}

proof fn lemma_first_index_of(s: Seq<char>, c: char, i: int)
    requires
        0 <= i <= s.len(),
        forall|k: int| 0 <= k < i ==> s[k] != c,
        i == s.len() || s[i] == c,
    ensures
        first_index_of(s, c) == i,
    decreases i,
{
    if i > 0 {
        lemma_first_index_of(s.drop_first(), c, i - 1);
    }
}

/// The part of `s` before its first `c` (`s.split(c).next()`).
pub open spec fn before_first(s: Seq<char>, c: char) -> Seq<char> {
    s.take(first_index_of(s, c))
}

fn before_first_exec(s: &str, c: char) -> (r: String)
    ensures
        r@ == before_first(s@, c),
{
    let v = chars_of(s);
    let mut i: usize = 0;
    while i < v.len() && v[i] != c
        invariant
            i <= v@.len(),
            forall|k: int| 0 <= k < i ==> v@[k] != c,
        decreases v@.len() - i,
    {
        i = i + 1;
    }
    proof {
        lemma_first_index_of(v@, c, i as int);
    }
    let r = string_of_range(&v, 0, i);
    assert(r@ =~= before_first(s@, c));
    r
}

/// The peer described by a resolved record, given the values of its
/// `instance-id`, `port`, `capabilities` and `display-name` properties.
/// There is none when the record has no IPv4 or IPv6 address.
pub open spec fn peer_from_parts(
    rec: ResolvedRecord,
    instance_id: Option<Seq<char>>,
    port: Option<Seq<char>>,
    capabilities: Option<Seq<char>>,
    display_name: Option<Seq<char>>,
) -> Option<PeerView> {
    match first_ip(rec.addresses@) {
        None => None,
        Some(ip) => {
            let id = match nonempty(instance_id) {
                Some(v) => v,
                None => rec.fullname@,
            };
            let p: u16 = match port {
                Some(s) => match parse_u16(s) {
                    Some(n) => n,
                    None => rec.port,
                },
                None => rec.port,
            };
            let caps = match capabilities {
                Some(s) => nonempty_fields(s, ','),
                None => Seq::empty(),
            };
            let name = match nonempty(display_name) {
                Some(v) => v,
                None => before_first(rec.fullname@, '.'),
            };
            Some(
                PeerView {
                    id,
                    display_name: name,
                    host_name: trim_end_class(rec.host@, CharClass::Exactly('.')),
                    addr: SocketAddress { ip, port: p },
                    capabilities: caps,
                },
            )
        },
    }
}

pub open spec fn opt_peer_view(p: Option<Peer>) -> Option<PeerView> {
    match p {
        Some(q) => Some(q@),
        None => None,
    }
}

/// Builds the peer of a resolved record from the values of its properties.
pub fn assemble_peer(
    record: &ResolvedRecord,
    instance_id: Option<String>,
    port: Option<String>,
    capabilities: Option<String>,
    display_name: Option<String>,
) -> (r: Option<Peer>)
    ensures
        opt_peer_view(r) == peer_from_parts(
            *record,
            opt_view(instance_id),
            opt_view(port),
            opt_view(capabilities),
            opt_view(display_name),
        ),
{
    let ip = match find_ip(&record.addresses) {
        Some(ip) => ip,
        None => {
            return None;
        },
    };
    let id = match instance_id {
        Some(v) => if !v.as_str().is_empty() {
            v
        } else {
            record.fullname.clone()
        },
        None => record.fullname.clone(),
    };
    let p: u16 = match &port {
        Some(s) => match parse_u16_str(s.as_str()) {
            Some(n) => n,
            None => record.port,
        },
        None => record.port,
    };
    let caps: Vec<String> = match &capabilities {
        Some(s) => split_nonempty(s.as_str(), ','),
        None => Vec::new(),
    };
    let name = match display_name {
        Some(v) => if !v.as_str().is_empty() {
            v
        } else {
            before_first_exec(record.fullname.as_str(), '.')
        },
        None => before_first_exec(record.fullname.as_str(), '.'),
    };
    let host = trim_end_matching(record.host.as_str(), CharClass::Exactly('.'));
    let peer = Peer {
        id,
        display_name: name,
        host_name: host,
        addr: SocketAddress { ip, port: p },
        capabilities: caps,
    };
    proof {
        if capabilities is None {
            assert(views(peer.capabilities@) =~= Seq::<Seq<char>>::empty());
        }
    }
    Some(peer)
}

/// The peer that a resolved record describes, from its properties as
/// mdns-sd reads them.
pub open spec fn record_peer(rec: ResolvedRecord) -> Option<PeerView> {
    let props = txt_views(rec.properties@);
    peer_from_parts(
        rec,
        txt_property_str(props, key_instance_id()),
        txt_property_str(props, key_port()),
        txt_property_str(props, key_capabilities()),
        txt_property_str(props, key_display_name()),
    )
}

/// The peer that a resolved record describes.
pub fn peer_from_resolved(record: &ResolvedRecord) -> (r: Option<Peer>)
    ensures
        opt_peer_view(r) == record_peer(*record),
{
    let instance_id = property_val_str(&record.properties, "instance-id");
    let port = property_val_str(&record.properties, "port");
    let capabilities = property_val_str(&record.properties, "capabilities");
    let display_name = property_val_str(&record.properties, "display-name");
    assemble_peer(record, instance_id, port, capabilities, display_name)
}

/// The IP address that a usable scoped address carries.
pub open spec fn carried_ip(a: ScopedAddress) -> IpAddress {
    match a {
        ScopedAddress::V4(o) => IpAddress::V4(o),
        ScopedAddress::V6(s) => IpAddress::V6(s),
        ScopedAddress::Unsupported => IpAddress::V4([0u8, 0u8, 0u8, 0u8]),
    }
}

/// The usable address that comes first in a record's list is the one
/// taken: when `addrs[i]` is IPv4 or IPv6 and every address before it is of
/// an unsupported kind, the result is `addrs[i]`'s IP.
pub proof fn lemma_first_usable_address_taken(addrs: Seq<ScopedAddress>, i: int)
    requires
        0 <= i < addrs.len(),
        !(addrs[i] is Unsupported),
        forall|j: int| 0 <= j < i ==> #[trigger] addrs[j] is Unsupported,
    ensures
        first_ip(addrs) == Some(carried_ip(addrs[i])),
    decreases i,
{
    if i > 0 {
        assert(addrs[0] is Unsupported);
        let rest = addrs.drop_first();
        assert forall|j: int| 0 <= j < i - 1 implies #[trigger] rest[j] is Unsupported by {
            assert(rest[j] == addrs[j + 1]);
        }
        lemma_first_usable_address_taken(rest, i - 1);
    }
}

/// A list with no IPv4 or IPv6 address gives no IP.
pub proof fn lemma_no_usable_address(addrs: Seq<ScopedAddress>)
    requires
        forall|j: int| 0 <= j < addrs.len() ==> #[trigger] addrs[j] is Unsupported,
    ensures
        first_ip(addrs) is None,
    decreases addrs.len(),
{
    if addrs.len() > 0 {
        let rest = addrs.drop_first();
        assert forall|j: int| 0 <= j < rest.len() implies #[trigger] rest[j] is Unsupported by {
            assert(rest[j] == addrs[j + 1]);
        }
        lemma_no_usable_address(rest);
    }
}

/// The peer of a resolved record listens on the record's first usable IP.
pub proof fn lemma_peer_listens_on_first_usable_address(rec: ResolvedRecord, i: int)
    requires
        0 <= i < rec.addresses@.len(),
        !(rec.addresses@[i] is Unsupported),
        forall|j: int| 0 <= j < i ==> #[trigger] rec.addresses@[j] is Unsupported,
    ensures
        record_peer(rec) is Some,
        record_peer(rec).unwrap().addr.ip == carried_ip(rec.addresses@[i]),
{
    lemma_first_usable_address_taken(rec.addresses@, i);
}

} // verus!
