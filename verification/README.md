# kagami

A peer-to-peer video call client for the local network. Peers announce
themselves over mDNS (`_kagami._udp.local.`), find each other, and exchange
HEVC video through a duplex media session.

## Layout

- `src/` is the library, written in Verus. Its functions carry contracts that
  Verus proves. Two calls that Verus cannot read, `String::push` and the TXT
  property lookup of mdns-sd, stand behind trusted declarations whose
  contracts are believed, not proved.
  - `text.rs`, `net.rs`: character classes, trimming, splitting, joining,
    decimal and hexadecimal text, and the text of IPv4/IPv6 socket addresses.
  - `discovery.rs`: resolved mDNS records and the peers built from them.
  - `directory.rs`: the set of known peers, kept by id, with the reactions to
    resolved and removed services and the name-sorted snapshot.
  - `naming.rs`: the host label, display name, instance id and the service
    record that this host announces.
  - `sankaku.rs`, `nezumi.rs`: frames, packets, statistics, capture producers
    and the BGRA to RGB8 conversion.
  - `render.rs`: pixel buffers, the bouncing squares and the test scenes.
  - `session.rs`: the media provider interface, the simulated session with its
    pseudo-random statistics, and the session over a capture producer.
  - `manager.rs`: the session manager and the values that the window shows.
- `tests/`: tests of the library on concrete values.
- `app/`: the program around the library: the mDNS daemon and its browsing
  thread, sockets, clocks, the environment, the native media library and the
  macOS camera capture, and the main loop. It has no window: it logs what
  the window would show and takes `select N`, `connect`, `mute on|off` and
  `video on|off` as lines on standard input.
