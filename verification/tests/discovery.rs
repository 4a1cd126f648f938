use kagami::directory::{is_own_service, name_less, PeerDirectory};
use kagami::discovery::{
    instance_id_of, kagami_service_type, peer_from_resolved, resolved_instance_id, scoped_ip_to_ip, Peer,
    ResolvedRecord, ScopedAddress, TxtEntry,
};
use kagami::naming::{
    display_name_from, host_label_from, instance_id_from, local_addresses_from,
    sanitize_dns_label, service_announcement,
};
use kagami::net::{IpAddress, SocketAddress};

fn entry(key: &str, value: &str) -> TxtEntry {
    TxtEntry { key: key.to_owned(), value: Some(value.as_bytes().to_vec()) }
}

fn record(fullname: &str, props: Vec<TxtEntry>) -> ResolvedRecord {
    ResolvedRecord {
        fullname: fullname.to_owned(),
        host: "alice-mac.local.".to_owned(),
        port: 5353,
        addresses: vec![ScopedAddress::Unsupported, ScopedAddress::V4([192, 168, 1, 10])],
        properties: props,
    }
}

fn peer(id: &str, name: &str, last_octet: u8) -> Peer {
    Peer {
        id: id.to_owned(),
        display_name: name.to_owned(),
        host_name: format!("{id}.local"),
        addr: SocketAddress { ip: IpAddress::V4([10, 0, 0, last_octet]), port: 9292 },
        capabilities: vec![],
    }
}

#[test]
fn service_type_is_kagami_udp() {
    assert_eq!(kagami_service_type(), "_kagami._udp.local.");
}

#[test]
fn peer_from_full_record() {
    let rec = record(
        "Alice-abc._kagami._udp.local.",
        vec![
            entry("capabilities", "Kagami-Full-Duplex,,Kagami-Audio"),
            entry("display-name", "Alice"),
            entry("instance-id", "alice-1f"),
            entry("port", "9292"),
        ],
    );
    let p = peer_from_resolved(&rec).expect("record has an IPv4 address");
    assert_eq!(p.id, "alice-1f");
    assert_eq!(p.display_name, "Alice");
    assert_eq!(p.host_name, "alice-mac.local");
    assert_eq!(p.capabilities, vec!["Kagami-Full-Duplex".to_owned(), "Kagami-Audio".to_owned()]);
    assert!(p.addr.same_as(&SocketAddress { ip: IpAddress::V4([192, 168, 1, 10]), port: 9292 }));
    assert_eq!(
        p.label(),
        "Alice (alice-mac.local) · 192.168.1.10:9292 · Kagami-Full-Duplex, Kagami-Audio"
    );
}

#[test]
fn peer_falls_back_to_record_fields() {
    let rec = record(
        "Bob-7._kagami._udp.local.",
        vec![entry("display-name", ""), entry("port", "not-a-port"), entry("instance-id", "")],
    );
    let p = peer_from_resolved(&rec).expect("record has an IPv4 address");
    assert_eq!(p.id, "Bob-7._kagami._udp.local.");
    assert_eq!(p.display_name, "Bob-7");
    assert!(p.addr.same_as(&SocketAddress { ip: IpAddress::V4([192, 168, 1, 10]), port: 5353 }));
    assert!(p.capabilities.is_empty());
    assert_eq!(p.label(), "Bob-7 (alice-mac.local) · 192.168.1.10:5353 · No capabilities");
}

#[test]
fn property_keys_match_without_case() {
    let rec = record("c._kagami._udp.local.", vec![entry("PORT", "7000"), entry("Instance-ID", "c1")]);
    let p = peer_from_resolved(&rec).unwrap();
    assert_eq!(p.addr.port, 7000);
    assert_eq!(p.id, "c1");
    assert_eq!(resolved_instance_id(&rec), Some("c1".to_owned()));
}

#[test]
fn record_without_address_gives_no_peer() {
    let mut rec = record("d._kagami._udp.local.", vec![]);
    rec.addresses = vec![ScopedAddress::Unsupported];
    assert!(peer_from_resolved(&rec).is_none());
    assert_eq!(resolved_instance_id(&rec), None);
    assert!(scoped_ip_to_ip(&ScopedAddress::Unsupported).is_none());
}

#[test]
fn ipv6_peer_label() {
    let mut rec = record("e._kagami._udp.local.", vec![entry("port", "9292")]);
    rec.addresses = vec![ScopedAddress::V6([0xfe80, 0, 0, 0, 0, 0, 0, 7])];
    let p = peer_from_resolved(&rec).unwrap();
    assert_eq!(p.label(), "e (alice-mac.local) · [fe80::7]:9292 · No capabilities");
}

#[test]
fn directory_replaces_and_removes_by_id() {
    let mut d = PeerDirectory::new();
    d.insert(peer("b", "Bravo", 2));
    d.insert(peer("a", "Alpha", 1));
    d.insert(peer("b", "Beta", 3));
    let names: Vec<String> = d.snapshot().into_iter().map(|p| p.display_name).collect();
    assert_eq!(names, vec!["Alpha".to_owned(), "Beta".to_owned()]);
    d.remove(&"a".to_owned());
    d.remove(&"missing".to_owned());
    let ids: Vec<String> = d.snapshot().into_iter().map(|p| p.id).collect();
    assert_eq!(ids, vec!["b".to_owned()]);
}

#[test]
fn snapshot_sorts_by_code_point() {
    let mut d = PeerDirectory::new();
    d.insert(peer("1", "zed", 1));
    d.insert(peer("2", "Zed", 2));
    d.insert(peer("3", "Ärger", 3));
    d.insert(peer("4", "Anna", 4));
    d.insert(peer("5", "", 5));
    let names: Vec<String> = d.snapshot().into_iter().map(|p| p.display_name).collect();
    let mut expected = names.clone();
    expected.sort();
    assert_eq!(names, expected);
    assert_eq!(names, vec!["", "Anna", "Zed", "zed", "Ärger"]);
    assert!(name_less("Zed", "zed"));
    assert!(!name_less("zed", "zed"));
    assert!(name_less("ab", "abc"));
}

#[test]
fn resolved_events_skip_this_host() {
    let mut d = PeerDirectory::new();
    let local = vec![SocketAddress { ip: IpAddress::V4([192, 168, 1, 10]), port: 9292 }];
    let own_name = record("me._kagami._udp.local.", vec![entry("port", "1")]);
    d.handle_resolved(&own_name, "me._kagami._udp.local.", "me-1", &local);
    let own_id = record("other._kagami._udp.local.", vec![entry("instance-id", "me-1")]);
    d.handle_resolved(&own_id, "me._kagami._udp.local.", "me-1", &local);
    let own_addr = record("x._kagami._udp.local.", vec![entry("port", "9292")]);
    d.handle_resolved(&own_addr, "me._kagami._udp.local.", "me-1", &local);
    assert!(d.snapshot().is_empty());
    let other = record("y._kagami._udp.local.", vec![entry("port", "9300")]);
    d.handle_resolved(&other, "me._kagami._udp.local.", "me-1", &local);
    assert_eq!(d.snapshot().len(), 1);
    d.handle_removed("y._kagami._udp.local.");
    assert!(d.snapshot().is_empty());
}

#[test]
fn removal_by_name_keeps_peer_with_instance_id() {
    let mut d = PeerDirectory::new();
    let rec = record("z._kagami._udp.local.", vec![entry("instance-id", "z-9")]);
    d.handle_resolved(&rec, "me", "me-1", &vec![]);
    d.handle_removed("z._kagami._udp.local.");
    assert_eq!(d.snapshot().len(), 1);
}

#[test]
fn own_service_check() {
    assert!(is_own_service("a", &None, "a", "id"));
    assert!(is_own_service("a", &Some("id".to_owned()), "b", "id"));
    assert!(!is_own_service("a", &Some("id2".to_owned()), "b", "id"));
    assert!(!is_own_service("a", &None, "b", "id"));
}

#[test]
fn dns_labels() {
    assert_eq!(sanitize_dns_label("My Laptop!"), "my-laptop");
    assert_eq!(sanitize_dns_label("--Host_01--"), "host-01");
    assert_eq!(sanitize_dns_label("---"), "kagami");
    assert_eq!(sanitize_dns_label(""), "kagami");
    assert_eq!(sanitize_dns_label("Ärger"), "rger");
    let long = "a".repeat(70);
    assert_eq!(sanitize_dns_label(&long), "a".repeat(63));
    let dashed = format!("{}-b", "a".repeat(62));
    assert_eq!(sanitize_dns_label(&dashed), "a".repeat(62));
    let once = sanitize_dns_label("  Weird..Name__ ");
    assert_eq!(sanitize_dns_label(&once), once);
}

#[test]
fn host_identity() {
    assert_eq!(display_name_from(None, Some("PC".into()), Some("u".into())), "PC");
    assert_eq!(display_name_from(None, None, Some("u".into())), "u");
    assert_eq!(display_name_from(None, None, None), "Kagami");
    assert_eq!(display_name_from(Some("".into()), None, None), "");
    assert_eq!(host_label_from(None, None), "kagami");
    assert_eq!(host_label_from(Some("h".into()), Some("c".into())), "h");
    assert_eq!(instance_id_from(Some("Host_1".into()), None, 0x10, 0x1), "host-1-11");
    assert_eq!(instance_id_from(None, None, 0, 0xdead_beef), "kagami-deadbeef");
    assert_eq!(instance_id_from(Some("--".into()), None, 1, 1), "kagami-0");
    let long = "x".repeat(80);
    assert_eq!(instance_id_from(Some(long.clone()), None, 2, 0), format!("{long}-2"));
}

#[test]
fn announced_addresses() {
    let lo = local_addresses_from(None);
    assert_eq!(lo.len(), 1);
    assert!(lo[0].same_as(&IpAddress::V4([127, 0, 0, 1])));
    let lo = local_addresses_from(Some(IpAddress::V4([127, 0, 0, 1])));
    assert!(lo[0].same_as(&IpAddress::V4([127, 0, 0, 1])));
    let lo = local_addresses_from(Some(IpAddress::V4([0, 0, 0, 0])));
    assert!(lo[0].same_as(&IpAddress::V4([127, 0, 0, 1])));
    let ip = IpAddress::V4([192, 168, 0, 5]);
    let a = local_addresses_from(Some(ip));
    assert_eq!(a.len(), 1);
    assert!(a[0].same_as(&ip));
}

#[test]
fn service_record_contents() {
    let caps = vec!["Kagami-Full-Duplex".to_owned(), "Kagami-Audio".to_owned()];
    let ips = vec![IpAddress::V4([192, 168, 0, 5])];
    let a = service_announcement("Alice", "alice-1f", "Alice's Mac", &caps, 9292, &ips);
    assert_eq!(a.instance_name, "Alice-alice-1f");
    assert_eq!(a.host_name, "alice-s-mac.local.");
    assert_eq!(
        a.properties,
        vec![
            ("capabilities".to_owned(), "Kagami-Full-Duplex,Kagami-Audio".to_owned()),
            ("display-name".to_owned(), "Alice".to_owned()),
            ("instance-id".to_owned(), "alice-1f".to_owned()),
            ("port".to_owned(), "9292".to_owned()),
        ]
    );
    assert_eq!(a.listener_addrs.len(), 1);
    assert!(a.listener_addrs[0].same_as(&SocketAddress { ip: ips[0], port: 9292 }));
}

#[test]
fn instance_id_needs_a_value() {
    assert_eq!(instance_id_of(Some("abc".to_owned())), Some("abc".to_owned()));
    assert_eq!(instance_id_of(Some(String::new())), None);
    assert_eq!(instance_id_of(None), None);
}
