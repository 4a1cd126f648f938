//! The directory of discovered peers, keyed by peer id, and how resolve and
//! remove events of the mDNS browser change it.
use vstd::prelude::*;
use crate::discovery::{
    opt_view, peer_from_resolved, record_instance_id, record_peer, resolved_instance_id, Peer,
    PeerView, ResolvedRecord,
};
use crate::net::SocketAddress;
use crate::text::chars_of;

verus! {

// ---------------------------------------------------------------------------
// Ordering of names
// ---------------------------------------------------------------------------

/// Lexicographic order of code points (the order of `str::cmp`).
pub open spec fn lex_lt(a: Seq<char>, b: Seq<char>) -> bool
    decreases a.len(),
{
    if a.len() == 0 {
        b.len() > 0
    } else if b.len() == 0 {
        false
    } else if a[0] != b[0] {
        a[0] < b[0]
    } else {
        lex_lt(a.drop_first(), b.drop_first())
    }
}

pub proof fn lemma_lex_total(a: Seq<char>, b: Seq<char>)
    ensures
        lex_lt(a, b) || lex_lt(b, a) || a == b,
    decreases a.len(),
{
    if a.len() > 0 && b.len() > 0 && a[0] == b[0] {
        lemma_lex_total(a.drop_first(), b.drop_first());
        if a.drop_first() == b.drop_first() {
            assert(a =~= seq![a[0]] + a.drop_first());
            assert(b =~= seq![b[0]] + b.drop_first());
        }
    }
    if a.len() == 0 && b.len() == 0 {
        assert(a =~= b);
    }
}

pub proof fn lemma_lex_irreflexive(a: Seq<char>)
    ensures
        !lex_lt(a, a),
    decreases a.len(),
{
    if a.len() > 0 {
        lemma_lex_irreflexive(a.drop_first());
    }
}

pub proof fn lemma_lex_transitive(a: Seq<char>, b: Seq<char>, c: Seq<char>)
    requires
        lex_lt(a, b),
        lex_lt(b, c),
    ensures
        lex_lt(a, c),
    decreases a.len(),
{
    if a.len() > 0 && b.len() > 0 && c.len() > 0 && a[0] == b[0] && b[0] == c[0] {
        lemma_lex_transitive(a.drop_first(), b.drop_first(), c.drop_first());
    }
}

fn lex_less_from(a: &Vec<char>, b: &Vec<char>, i: usize) -> (r: bool)
    requires
        i <= a@.len(),
        i <= b@.len(),
    ensures
        r == lex_lt(a@.skip(i as int), b@.skip(i as int)),
    decreases a@.len() - i,
{
    let ghost sa = a@.skip(i as int);
    let ghost sb = b@.skip(i as int);
    if i == a.len() {
        return i < b.len();
    }
    if i == b.len() {
        return false;
    }
    assert(sa[0] == a@[i as int]);
    assert(sb[0] == b@[i as int]);
    if a[i] != b[i] {
        return a[i] < b[i];
    }
    assert(sa.drop_first() =~= a@.skip(i + 1));
    assert(sb.drop_first() =~= b@.skip(i + 1));
    lex_less_from(a, b, i + 1)
}

/// Whether `a` sorts strictly before `b`.
pub fn name_less(a: &str, b: &str) -> (r: bool)
    ensures
        r == lex_lt(a@, b@),
{
    let va = chars_of(a);
    let vb = chars_of(b);
    assert(va@.skip(0) =~= va@);
    assert(vb@.skip(0) =~= vb@);
    lex_less_from(&va, &vb, 0)
}

// ---------------------------------------------------------------------------
// The directory
// ---------------------------------------------------------------------------

pub open spec fn pviews(s: Seq<Peer>) -> Seq<PeerView> {
    s.map_values(|p: Peer| p@)
}

pub open spec fn ids_distinct(s: Seq<PeerView>) -> bool {
    forall|i: int, j: int| 0 <= i < s.len() && 0 <= j < s.len() && i != j ==> s[i].id != s[j].id
}

pub open spec fn has_id(s: Seq<PeerView>, id: Seq<char>) -> bool {
    exists|k: int| 0 <= k < s.len() && #[trigger] s[k].id == id
}

/// The peers of `s` keyed by id.
pub open spec fn id_map(s: Seq<PeerView>) -> Map<Seq<char>, PeerView> {
    Map::new(
        |id: Seq<char>| has_id(s, id),
        |id: Seq<char>| s[choose|k: int| 0 <= k < s.len() && #[trigger] s[k].id == id],
    )
}

proof fn lemma_id_map_at(s: Seq<PeerView>, k: int)
    requires
        ids_distinct(s),
        0 <= k < s.len(),
    ensures
        id_map(s).contains_key(s[k].id),
        id_map(s)[s[k].id] == s[k],
{
    assert(has_id(s, s[k].id));
    let j = choose|j: int| 0 <= j < s.len() && #[trigger] s[j].id == s[k].id;
    assert(j == k);
}

/// Peers ordered by display name, as a snapshot lists them.
pub open spec fn sorted_by_name(s: Seq<PeerView>) -> bool {
    forall|i: int, j: int|
        0 <= i < j < s.len() ==> !lex_lt(#[trigger] s[j].display_name, #[trigger] s[i].display_name)
}

/// `s` lists exactly the peers of `m`, each once.
pub open spec fn lists_exactly(s: Seq<PeerView>, m: Map<Seq<char>, PeerView>) -> bool {
    &&& ids_distinct(s)
    &&& forall|k: int| 0 <= k < s.len() ==> m.contains_key(#[trigger] s[k].id) && m[s[k].id] == s[k]
    &&& forall|id: Seq<char>| m.contains_key(id) ==> has_id(s, id)
}

/// The peers discovered so far, at most one per id.
pub struct PeerDirectory {
    peers: Vec<Peer>,
}

impl View for PeerDirectory {
    type V = Map<Seq<char>, PeerView>;

    closed spec fn view(&self) -> Map<Seq<char>, PeerView> {
        id_map(pviews(self.peers@))
    }
}

impl PeerDirectory {
    pub closed spec fn wf(&self) -> bool {
        ids_distinct(pviews(self.peers@))
    }

    pub fn new() -> (r: PeerDirectory)
        ensures
            r.wf(),
            r@ == Map::<Seq<char>, PeerView>::empty(),
    {
        let r = PeerDirectory { peers: Vec::new() };
        assert(r@ =~= Map::<Seq<char>, PeerView>::empty());
        r
    }

    /// Index of the peer with `id`, if any.
    fn position(&self, id: &String) -> (r: Option<usize>)
        requires
            self.wf(),
        ensures
            match r {
                Some(k) => k < self.peers@.len() && self.peers@[k as int].id@ == id@,
                None => !has_id(pviews(self.peers@), id@),
            },
    {
        let mut k: usize = 0;
        while k < self.peers.len()
            invariant
                k <= self.peers@.len(),
                forall|j: int| 0 <= j < k ==> #[trigger] self.peers@[j].id@ != id@,
            decreases self.peers@.len() - k,
        {
            if self.peers[k].id == *id {
                return Some(k);
            }
            k = k + 1;
        }
        assert forall|j: int| 0 <= j < self.peers@.len() implies #[trigger] pviews(
            self.peers@,
        )[j].id != id@ by {
            assert(pviews(self.peers@)[j] == self.peers@[j]@);
        }
        None
    }

    /// Adds `peer`, replacing the peer with the same id (`HashMap::insert`).
    pub fn insert(&mut self, peer: Peer)
        requires
            old(self).wf(),
        ensures
            final(self).wf(),
            final(self)@ == old(self)@.insert(peer@.id, peer@),
    {
        let ghost s = pviews(self.peers@);
        let ghost p = peer@;
        match self.position(&peer.id) {
            Some(k) => {
                self.peers.set(k, peer);
                proof {
                    let t = pviews(self.peers@);
                    assert(t =~= s.update(k as int, p));
                    assert(ids_distinct(t)) by {
                        assert forall|i: int, j: int|
                            0 <= i < t.len() && 0 <= j < t.len() && i != j implies t[i].id
                            != t[j].id by {
                            assert(t[i].id == s[i].id);
                            assert(t[j].id == s[j].id);
                        }
                    }
                    assert forall|id: Seq<char>| #[trigger]
                        id_map(t).contains_key(id) == id_map(s).insert(p.id, p).contains_key(
                            id,
                        ) by {
                        if has_id(t, id) {
                            let j = choose|j: int| 0 <= j < t.len() && #[trigger] t[j].id == id;
                            assert(s[j].id == id);
                        }
                        if has_id(s, id) {
                            let j = choose|j: int| 0 <= j < s.len() && #[trigger] s[j].id == id;
                            assert(t[j].id == id);
                        }
                        if id == p.id {
                            assert(t[k as int].id == id);
                        }
                    }
                    assert forall|id: Seq<char>| #[trigger]
                        id_map(t).contains_key(id) implies id_map(t)[id] == id_map(s).insert(
                            p.id,
                            p,
                        )[id] by {
                        let j = choose|j: int| 0 <= j < t.len() && #[trigger] t[j].id == id;
                        lemma_id_map_at(t, j);
                        if j != k {
                            lemma_id_map_at(s, j);
                        }
                    }
                    assert(id_map(t) =~= id_map(s).insert(p.id, p));
                }
            },
            None => {
                self.peers.push(peer);
                proof {
                    let t = pviews(self.peers@);
                    assert(t =~= s.push(p));
                    assert(ids_distinct(t)) by {
                        assert forall|i: int, j: int|
                            0 <= i < t.len() && 0 <= j < t.len() && i != j implies t[i].id
                            != t[j].id by {
                            if i == s.len() as int {
                                assert(s[j].id == t[j].id);
                            } else if j == s.len() as int {
                                assert(s[i].id == t[i].id);
                            }
                        }
                    }
                    assert forall|id: Seq<char>| #[trigger]
                        id_map(t).contains_key(id) == id_map(s).insert(p.id, p).contains_key(
                            id,
                        ) by {
                        if has_id(t, id) {
                            let j = choose|j: int| 0 <= j < t.len() && #[trigger] t[j].id == id;
                            if j < s.len() {
                                assert(s[j].id == id);
                            }
                        }
                        if has_id(s, id) {
                            let j = choose|j: int| 0 <= j < s.len() && #[trigger] s[j].id == id;
                            assert(t[j].id == id);
                        }
                        if id == p.id {
                            assert(t[s.len() as int].id == id);
                        }
                    }
                    assert forall|id: Seq<char>| #[trigger]
                        id_map(t).contains_key(id) implies id_map(t)[id] == id_map(s).insert(
                            p.id,
                            p,
                        )[id] by {
                        let j = choose|j: int| 0 <= j < t.len() && #[trigger] t[j].id == id;
                        lemma_id_map_at(t, j);
                        if j < s.len() {
                            lemma_id_map_at(s, j);
                        }
                    }
                    assert(id_map(t) =~= id_map(s).insert(p.id, p));
                }
            },
        }
    }

    /// Removes the peer whose id is `key`, if any (`HashMap::remove`).
    pub fn remove(&mut self, key: &String)
        requires
            old(self).wf(),
        ensures
            final(self).wf(),
            final(self)@ == old(self)@.remove(key@),
    {
        let ghost s = pviews(self.peers@);
        match self.position(key) {
            Some(k) => {
                assert(s[k as int] == self.peers@[k as int]@);
                assert(s[k as int].id == key@);
                let _ = self.peers.remove(k);
                proof {
                    let t = pviews(self.peers@);
                    assert(t =~= s.remove(k as int));
                    assert(ids_distinct(t)) by {
                        assert forall|i: int, j: int|
                            0 <= i < t.len() && 0 <= j < t.len() && i != j implies t[i].id
                            != t[j].id by {
                            let i2 = if i < k {
                                i
                            } else {
                                i + 1
                            };
                            let j2 = if j < k {
                                j
                            } else {
                                j + 1
                            };
                            assert(t[i] == s[i2]);
                            assert(t[j] == s[j2]);
                        }
                    }
                    assert forall|id: Seq<char>| #[trigger]
                        id_map(t).contains_key(id) == id_map(s).remove(key@).contains_key(id) by {
                        if has_id(t, id) {
                            let j = choose|j: int| 0 <= j < t.len() && #[trigger] t[j].id == id;
                            let j2 = if j < k {
                                j
                            } else {
                                j + 1
                            };
                            assert(t[j] == s[j2]);
                            assert(s[j2].id == id);
                            assert(j2 != k);
                            assert(s[j2].id != s[k as int].id);
                        }
                        if has_id(s, id) && id != key@ {
                            let j = choose|j: int| 0 <= j < s.len() && #[trigger] s[j].id == id;
                            assert(j != k);
                            let j2 = if j < k {
                                j
                            } else {
                                j - 1
                            };
                            assert(t[j2] == s[j]);
                        }
                    }
                    assert forall|id: Seq<char>| #[trigger]
                        id_map(t).contains_key(id) implies id_map(t)[id] == id_map(s).remove(
                            key@,
                        )[id] by {
                        let j = choose|j: int| 0 <= j < t.len() && #[trigger] t[j].id == id;
                        let j2 = if j < k {
                            j
                        } else {
                            j + 1
                        };
                        assert(t[j] == s[j2]);
                        lemma_id_map_at(t, j);
                        lemma_id_map_at(s, j2);
                    }
                    assert(id_map(t) =~= id_map(s).remove(key@));
                }
            },
            None => {
                assert(id_map(s) =~= id_map(s).remove(key@));
            },
        }
    }

    /// The known peers ordered by display name; peers with equal names keep
    /// no particular order.
    pub fn snapshot(&self) -> (r: Vec<Peer>)
        requires
            self.wf(),
        ensures
            lists_exactly(pviews(r@), self@),
            sorted_by_name(pviews(r@)),
    {
        let ghost s = pviews(self.peers@);
        let mut out: Vec<Peer> = Vec::new();
        let mut i: usize = 0;
        while i < self.peers.len()
            invariant
                s == pviews(self.peers@),
                ids_distinct(s),
                i <= s.len(),
                out@.len() == i,
                ids_distinct(pviews(out@)),
                sorted_by_name(pviews(out@)),
                forall|k: int| 0 <= k < out@.len() ==> #[trigger] has_id(s.take(i as int), out@[k]@.id)
                    && id_map(s)[out@[k]@.id] == out@[k]@,
                forall|m: int| 0 <= m < i ==> has_id(pviews(out@), #[trigger] s[m].id),
            decreases s.len() - i,
        {
            let e = self.peers[i].clone();
            let ghost ev = e@;
            assert(ev == s[i as int]);
            let mut k: usize = 0;
            while k < out.len() && !name_less(e.display_name.as_str(), out[k].display_name.as_str())
                invariant
                    k <= out@.len(),
                    e@ == ev,
                    forall|j: int| 0 <= j < k ==> !lex_lt(ev.display_name, #[trigger] out@[j]@.display_name),
                decreases out@.len() - k,
            {
                k = k + 1;
            }
            let ghost before = pviews(out@);
            proof {
                lemma_id_map_at(s, i as int);
            }
            out.insert(k, e);
            proof {
                let t = pviews(out@);
                assert(t =~= before.insert(k as int, ev));
                // the new element has an id not present before
                assert forall|j: int| 0 <= j < before.len() implies before[j].id != ev.id by {
                    assert(has_id(s.take(i as int), before[j].id));
                    let m = choose|m: int| 0 <= m < i && #[trigger] s.take(i as int)[m].id
                        == before[j].id;
                    assert(s[m].id == before[j].id);
                }
                assert(ids_distinct(t)) by {
                    assert forall|a: int, b: int|
                        0 <= a < t.len() && 0 <= b < t.len() && a != b implies t[a].id
                        != t[b].id by {
                        let a2 = if a < k {
                            a
                        } else {
                            a - 1
                        };
                        let b2 = if b < k {
                            b
                        } else {
                            b - 1
                        };
                        if a != k as int && b != k as int {
                            assert(t[a] == before[a2]);
                            assert(t[b] == before[b2]);
                        } else if a == k as int {
                            assert(t[b] == before[b2]);
                        } else {
                            assert(t[a] == before[a2]);
                        }
                    }
                }
                assert(sorted_by_name(t)) by {
                    assert forall|a: int, b: int| 0 <= a < b < t.len() implies !lex_lt(
                        #[trigger] t[b].display_name,
                        #[trigger] t[a].display_name,
                    ) by {
                        if b < k {
                            assert(t[a] == before[a]);
                            assert(t[b] == before[b]);
                        } else if a > k {
                            assert(t[a] == before[a - 1]);
                            assert(t[b] == before[b - 1]);
                        } else if b == k {
                            assert(t[a] == before[a]);
                            assert(t[b] == ev);
                            assert(!lex_lt(ev.display_name, out@[a]@.display_name));
                        } else if a == k {
                            assert(t[a] == ev);
                            assert(t[b] == before[b - 1]);
                            assert(lex_lt(ev.display_name, before[k as int].display_name));
                            if b - 1 > k {
                                assert(!lex_lt(
                                    before[b - 1].display_name,
                                    before[k as int].display_name,
                                ));
                            }
                            if lex_lt(before[b - 1].display_name, ev.display_name) {
                                lemma_lex_transitive(
                                    before[b - 1].display_name,
                                    ev.display_name,
                                    before[k as int].display_name,
                                );
                                if b - 1 == k {
                                    lemma_lex_irreflexive(before[k as int].display_name);
                                }
                            }
                        } else {
                            assert(t[a] == before[a]);
                            assert(t[b] == before[b - 1]);
                        }
                    }
                }
                assert forall|j: int| 0 <= j < out@.len() implies #[trigger] has_id(
                    s.take(i + 1),
                    out@[j]@.id,
                ) && id_map(s)[out@[j]@.id] == out@[j]@ by {
                    if j == k {
                        assert(out@[j]@ == ev);
                        assert(s.take(i + 1)[i as int].id == ev.id);
                    } else {
                        let j2 = if j < k {
                            j
                        } else {
                            j - 1
                        };
                        assert(out@[j]@ == before[j2]);
                        assert(has_id(s.take(i as int), before[j2].id));
                        let m = choose|m: int| 0 <= m < i && #[trigger] s.take(i as int)[m].id
                            == before[j2].id;
                        assert(s.take(i + 1)[m].id == before[j2].id);
                    }
                }
                assert forall|m: int| 0 <= m < i + 1 implies has_id(t, #[trigger] s[m].id) by {
                    if m == i {
                        assert(t[k as int].id == s[m].id);
                    } else {
                        assert(has_id(before, s[m].id));
                        let j = choose|j: int| 0 <= j < before.len() && #[trigger] before[j].id
                            == s[m].id;
                        let j2 = if j < k {
                            j
                        } else {
                            j + 1
                        };
                        assert(t[j2] == before[j]);
                    }
                }
            }
            i = i + 1;
        }
        proof {
            let t = pviews(out@);
            assert(s.take(s.len() as int) =~= s);
            assert forall|id: Seq<char>| id_map(s).contains_key(id) implies has_id(t, id) by {
                let m = choose|m: int| 0 <= m < s.len() && #[trigger] s[m].id == id;
                assert(has_id(t, s[m].id));
            }
            assert forall|k: int| 0 <= k < t.len() implies id_map(s).contains_key(
                #[trigger] t[k].id,
            ) && id_map(s)[t[k].id] == t[k] by {
                assert(t[k] == out@[k]@);
                assert(has_id(s.take(s.len() as int), out@[k]@.id));
            }
        }
        out
    }
}


// ---------------------------------------------------------------------------
// Browser events
// ---------------------------------------------------------------------------

pub open spec fn contains_addr(addrs: Seq<SocketAddress>, a: SocketAddress) -> bool {
    exists|k: int| 0 <= k < addrs.len() && addrs[k] == a
}

/// Whether `a` is one of `addrs`.
pub fn addr_listed(addrs: &Vec<SocketAddress>, a: &SocketAddress) -> (r: bool)
    ensures
        r == contains_addr(addrs@, *a),
        r <==> exists|k: int|
            0 <= k < addrs@.len() && #[trigger] addrs@[k].ip == a.ip && addrs@[k].port == a.port,
{
    let mut k: usize = 0;
    while k < addrs.len()
        invariant
            k <= addrs@.len(),
            forall|j: int| 0 <= j < k ==> addrs@[j] != *a,
        decreases addrs@.len() - k,
    {
        if addrs[k].same_as(a) {
            proof {
                lemma_listed_address_is_equal(addrs@, *a);
            }
            return true;
        }
        k = k + 1;
    }
    proof {
        lemma_listed_address_is_equal(addrs@, *a);
    }
    false
}

/// A resolved service is this host's own announcement when it has this
/// host's full name or instance id.
pub open spec fn is_own(
    fullname: Seq<char>,
    instance_id: Option<Seq<char>>,
    local_fullname: Seq<char>,
    local_instance_id: Seq<char>,
) -> bool {
    fullname == local_fullname || instance_id == Some(local_instance_id)
}

/// Whether a resolved service with `fullname` and `instance_id` is this
/// host's own announcement.
pub fn is_own_service(
    fullname: &str,
    instance_id: &Option<String>,
    local_fullname: &str,
    local_instance_id: &str,
) -> (r: bool)
    ensures
        r == is_own(fullname@, opt_view(*instance_id), local_fullname@, local_instance_id@),
{
    let a = fullname.to_owned();
    let b = local_fullname.to_owned();
    if a == b {
        return true;
    }
    match instance_id {
        Some(id) => {
            let c = local_instance_id.to_owned();
            *id == c
        },
        None => false,
    }
}

/// How a resolved service changes the directory: this host's own
/// announcement, a record without address and a peer listening on one of
/// this host's addresses leave it as it was; any other peer is added or
/// replaces the peer with its id.
pub open spec fn after_resolved(
    m: Map<Seq<char>, PeerView>,
    rec: ResolvedRecord,
    local_fullname: Seq<char>,
    local_instance_id: Seq<char>,
    local_addrs: Seq<SocketAddress>,
) -> Map<Seq<char>, PeerView> {
    if is_own(rec.fullname@, record_instance_id(rec), local_fullname, local_instance_id) {
        m
    } else {
        match record_peer(rec) {
            None => m,
            Some(p) => if contains_addr(local_addrs, p.addr) {
                m
            } else {
                m.insert(p.id, p)
            },
        }
    }
}

impl PeerDirectory {
    /// Adds `peer` unless it listens on one of `local_addrs`.
    pub fn add_unless_local(&mut self, peer: Peer, local_addrs: &Vec<SocketAddress>)
        requires
            old(self).wf(),
        ensures
            final(self).wf(),
            final(self)@ == (if contains_addr(local_addrs@, peer@.addr) {
                old(self)@
            } else {
                old(self)@.insert(peer@.id, peer@)
            }),
    {
        if !addr_listed(local_addrs, &peer.addr) {
            self.insert(peer);
        }
    }

    /// Applies a resolved service reported by the browser.
    pub fn handle_resolved(
        &mut self,
        record: &ResolvedRecord,
        local_fullname: &str,
        local_instance_id: &str,
        local_addrs: &Vec<SocketAddress>,
    )
        requires
            old(self).wf(),
        ensures
            final(self).wf(),
            final(self)@ == after_resolved(
                old(self)@,
                *record,
                local_fullname@,
                local_instance_id@,
                local_addrs@,
            ),
    {
        let instance_id = resolved_instance_id(record);
        if is_own_service(record.fullname.as_str(), &instance_id, local_fullname, local_instance_id) {
            return ;
        }
        match peer_from_resolved(record) {
            Some(peer) => self.add_unless_local(peer, local_addrs),
            None => {},
        }
    }

    /// Applies the removal of the service named `fullname`.
    pub fn handle_removed(&mut self, fullname: &str)
        requires
            old(self).wf(),
        ensures
            final(self).wf(),
            final(self)@ == old(self)@.remove(fullname@),
    {
        let key = fullname.to_owned();
        self.remove(&key);
    }
}

// ---------------------------------------------------------------------------
// Laws of the directory
// ---------------------------------------------------------------------------

/// A snapshot taken after a peer is added lists that peer.
pub proof fn lemma_added_peer_listed(s: Seq<PeerView>, m: Map<Seq<char>, PeerView>, p: PeerView)
    requires
        lists_exactly(s, m.insert(p.id, p)),
    ensures
        exists|k: int| 0 <= k < s.len() && s[k] == p,
{
    assert(m.insert(p.id, p).contains_key(p.id));
    assert(has_id(s, p.id));
    let k = choose|k: int| 0 <= k < s.len() && #[trigger] s[k].id == p.id;
    assert(m.insert(p.id, p)[s[k].id] == s[k]);
    assert(s[k] == p);
}

/// A snapshot taken after the service with `key` is removed lists no peer
/// with that id.
pub proof fn lemma_removed_peer_not_listed(
    s: Seq<PeerView>,
    m: Map<Seq<char>, PeerView>,
    key: Seq<char>,
)
    requires
        lists_exactly(s, m.remove(key)),
    ensures
        !has_id(s, key),
{
    if has_id(s, key) {
        let k = choose|k: int| 0 <= k < s.len() && #[trigger] s[k].id == key;
        assert(m.remove(key).contains_key(s[k].id));
    }
}

/// For a service that announces no instance id, its removal undoes its
/// resolution: the peer is keyed by the service's full name, which is what
/// a removal names.
pub proof fn lemma_remove_undoes_resolve(
    m: Map<Seq<char>, PeerView>,
    rec: ResolvedRecord,
    local_fullname: Seq<char>,
    local_instance_id: Seq<char>,
    local_addrs: Seq<SocketAddress>,
)
    requires
        crate::discovery::nonempty(
            crate::discovery::txt_property_str(
                crate::discovery::txt_views(rec.properties@),
                crate::discovery::key_instance_id(),
            ),
        ) is None,
    ensures
        after_resolved(m, rec, local_fullname, local_instance_id, local_addrs).remove(
            rec.fullname@,
        ) == m.remove(rec.fullname@),
{
    let after = after_resolved(m, rec, local_fullname, local_instance_id, local_addrs);
    match record_peer(rec) {
        Some(p) => {
            assert(p.id == rec.fullname@);
            assert(after.remove(rec.fullname@) =~= m.remove(rec.fullname@));
        },
        None => {},
    }
}

/// No peer of `m` is this host: none has this host's instance id and none
/// listens on one of this host's addresses.
pub open spec fn lists_no_self(
    m: Map<Seq<char>, PeerView>,
    local_instance_id: Seq<char>,
    local_addrs: Seq<SocketAddress>,
) -> bool {
    forall|k: Seq<char>|
        #[trigger] m.contains_key(k) ==> m[k].id != local_instance_id && !contains_addr(
            local_addrs,
            m[k].addr,
        )
}

/// The directory never lists this host. The empty directory lists no peer,
/// and whatever the browser reports keeps it so: a removal, and a resolved
/// service whose full name is not this host's instance id (a peer without
/// an instance id is listed under its full name).
pub proof fn lemma_never_lists_self(
    m: Map<Seq<char>, PeerView>,
    rec: ResolvedRecord,
    removed: Seq<char>,
    local_fullname: Seq<char>,
    local_instance_id: Seq<char>,
    local_addrs: Seq<SocketAddress>,
)
    requires
        lists_no_self(m, local_instance_id, local_addrs),
        rec.fullname@ != local_instance_id,
    ensures
        lists_no_self(Map::empty(), local_instance_id, local_addrs),
        lists_no_self(
            after_resolved(m, rec, local_fullname, local_instance_id, local_addrs),
            local_instance_id,
            local_addrs,
        ),
        lists_no_self(m.remove(removed), local_instance_id, local_addrs),
{
    let after = after_resolved(m, rec, local_fullname, local_instance_id, local_addrs);
    assert forall|k: Seq<char>| #[trigger] after.contains_key(k) implies after[k].id
        != local_instance_id && !contains_addr(local_addrs, after[k].addr) by {
        if !is_own(rec.fullname@, record_instance_id(rec), local_fullname, local_instance_id) {
            match record_peer(rec) {
                Some(p) => {
                    if !contains_addr(local_addrs, p.addr) && k == p.id {
                        assert(after[k] == p);
                    }
                },
                None => {},
            }
        }
    }
}

/// Every mDNS full name holds a dot and this host's instance id does not,
/// so the directory never lists this host whatever the browser resolves.
pub proof fn lemma_dotted_names_never_list_self(
    m: Map<Seq<char>, PeerView>,
    rec: ResolvedRecord,
    local_fullname: Seq<char>,
    local_instance_id: Seq<char>,
    local_addrs: Seq<SocketAddress>,
)
    requires
        lists_no_self(m, local_instance_id, local_addrs),
        rec.fullname@.contains('.'),
        !local_instance_id.contains('.'),
    ensures
        lists_no_self(
            after_resolved(m, rec, local_fullname, local_instance_id, local_addrs),
            local_instance_id,
            local_addrs,
        ),
{
    let i = choose|i: int| 0 <= i < rec.fullname@.len() && rec.fullname@[i] == '.';
    if rec.fullname@ == local_instance_id {
        assert(local_instance_id[i] == '.');
    }
    lemma_never_lists_self(m, rec, rec.fullname@, local_fullname, local_instance_id, local_addrs);
}

/// An address counts as one of this host's listener addresses exactly when
/// it equals one of them in both its IP and its port.
pub proof fn lemma_listed_address_is_equal(addrs: Seq<SocketAddress>, a: SocketAddress)
    ensures
        contains_addr(addrs, a) <==> exists|k: int|
            0 <= k < addrs.len() && #[trigger] addrs[k].ip == a.ip && addrs[k].port == a.port,
{
    if contains_addr(addrs, a) {
        let k = choose|k: int| 0 <= k < addrs.len() && addrs[k] == a;
        assert(addrs[k].ip == a.ip && addrs[k].port == a.port);
    }
    if exists|k: int| 0 <= k < addrs.len() && #[trigger] addrs[k].ip == a.ip && addrs[k].port == a.port {
        let k = choose|k: int| 0 <= k < addrs.len() && #[trigger] addrs[k].ip == a.ip && addrs[k].port == a.port;
        assert(addrs[k] == a);
    }
}

/// A peer resolved from another host is added, or replaces the peer with its
/// id, whenever its socket address differs from every listener address of
/// this host, in the IP or in the port.
pub proof fn lemma_foreign_peer_added(
    m: Map<Seq<char>, PeerView>,
    rec: ResolvedRecord,
    local_fullname: Seq<char>,
    local_instance_id: Seq<char>,
    local_addrs: Seq<SocketAddress>,
)
    requires
        rec.fullname@ != local_fullname,
        record_instance_id(rec) != Some(local_instance_id),
        record_peer(rec) is Some,
        forall|k: int|
            0 <= k < local_addrs.len() ==> #[trigger] local_addrs[k].ip != record_peer(rec).unwrap().addr.ip
                || local_addrs[k].port != record_peer(rec).unwrap().addr.port,
    ensures
        after_resolved(m, rec, local_fullname, local_instance_id, local_addrs) == m.insert(
            record_peer(rec).unwrap().id,
            record_peer(rec).unwrap(),
        ),
{
    let p = record_peer(rec).unwrap();
    if contains_addr(local_addrs, p.addr) {
        let k = choose|k: int| 0 <= k < local_addrs.len() && local_addrs[k] == p.addr;
        assert(local_addrs[k].ip == p.addr.ip);
    }
}

} // verus!
