//! Peers found on the LAN, and the table that tracks them.

use vstd::prelude::*;
use crate::textutil::{trim_line_end, trim_line_end_of};
use crate::wire::{hello_udp_spec, parse_hello};

verus! {

/// Another instance of the program, found through its discovery broadcasts.
pub struct Peer {
    pub id: String,
    pub name: String,
    /// IPv4 address of the peer's race listener, as a 32-bit number.
    pub tcp_ip: u32,
    /// Port of the peer's race listener.
    pub tcp_port: u16,
    /// When the peer was last heard from (nanoseconds, monotonic clock).
    pub last_seen: u64,
}

/// A peer as plain values.
pub struct PeerView {
    pub id: Seq<char>,
    pub name: Seq<char>,
    pub tcp_ip: u32,
    pub tcp_port: u16,
    pub last_seen: u64,
}

impl View for Peer {
    type V = PeerView;

    open spec fn view(&self) -> PeerView {
        PeerView {
            id: self.id@,
            name: self.name@,
            tcp_ip: self.tcp_ip,
            tcp_port: self.tcp_port,
            last_seen: self.last_seen,
        }
    }
}

impl Peer {
    /// A copy of this peer.
    pub fn copy(&self) -> (p: Peer)
        ensures
            p@ == self@,
    {
        Peer {
            id: self.id.clone(),
            name: self.name.clone(),
            tcp_ip: self.tcp_ip,
            tcp_port: self.tcp_port,
            last_seen: self.last_seen,
        }
    }
}

/// Copies of `peers`.
pub fn copy_peers(peers: &Vec<Peer>) -> (r: Vec<Peer>)
    ensures
        r@.map_values(|p: Peer| p@) == peers@.map_values(|p: Peer| p@),
{
    let mut r: Vec<Peer> = Vec::new();
    let mut i: usize = 0;
    while i < peers.len()
        invariant
            i <= peers@.len(),
            r@.len() == i,
            forall|j: int| 0 <= j < i ==> #[trigger] r@[j]@ == peers@[j]@,
        decreases peers@.len() - i,
    {
        let p = peers[i].copy();
        r.push(p);
        i += 1;
    }
    assert(r@.map_values(|p: Peer| p@) =~= peers@.map_values(|p: Peer| p@));
    r
}

/// Whether no two entries of `s` share an id.
pub open spec fn unique_ids(s: Seq<PeerView>) -> bool {
    forall|i: int, j: int| 0 <= i < s.len() && 0 <= j < s.len() && i != j ==> s[i].id != s[j].id
}

/// Where the peer with `id` stands in `s`, or -1.
pub open spec fn index_of_id(s: Seq<PeerView>, id: Seq<char>) -> int
    decreases s.len(),
{
    if s.len() == 0 {
        -1
    } else if s.last().id == id {
        s.len() - 1
    } else {
        index_of_id(s.drop_last(), id)
    }
}

pub proof fn lemma_index_of_id(s: Seq<PeerView>, id: Seq<char>)
    ensures
        -1 <= index_of_id(s, id) < s.len(),
        index_of_id(s, id) >= 0 ==> s[index_of_id(s, id)].id == id,
        index_of_id(s, id) < 0 ==> forall|k: int| 0 <= k < s.len() ==> s[k].id != id,
    decreases s.len(),
{
    if s.len() > 0 && s.last().id != id {
        lemma_index_of_id(s.drop_last(), id);
        let k = index_of_id(s.drop_last(), id);
        if k >= 0 {
            assert(s[k] == s.drop_last()[k]);
        } else {
            assert forall|k: int| 0 <= k < s.len() implies s[k].id != id by {
                if k < s.len() - 1 {
                    assert(s[k] == s.drop_last()[k]);
                }
            }
        }
    }
}

/// The peers heard from, at most one entry per id.
pub struct PeerTable {
    peers: Vec<Peer>,
}

/// What the table holds once `p` has been heard from: its entry is replaced
/// when its id is known, appended otherwise.
pub open spec fn upsert_spec(s: Seq<PeerView>, p: PeerView) -> Seq<PeerView> {
    let k = index_of_id(s, p.id);
    if k >= 0 {
        s.update(k, p)
    } else {
        s.push(p)
    }
}

/// Whether hearing from `p` changes what the lobby shows: a new id, or a known
/// one with another name or address.
pub open spec fn upsert_changes(s: Seq<PeerView>, p: PeerView) -> bool {
    let k = index_of_id(s, p.id);
    k < 0 || s[k].name != p.name || s[k].tcp_ip != p.tcp_ip || s[k].tcp_port != p.tcp_port
}

/// Whether a peer last heard from at `last_seen` still counts at `now`: less
/// than `timeout` has passed (a clock that went backwards counts as no time).
pub open spec fn is_fresh(last_seen: u64, now: u64, timeout: u64) -> bool {
    (if now >= last_seen { now - last_seen } else { 0 }) < timeout
}

impl PeerTable {
    /// The entries, in the order they were first heard from.
    pub closed spec fn entries(&self) -> Seq<PeerView> {
        self.peers@.map_values(|p: Peer| p@)
    }

    /// The table's invariant: no two entries share an id.
    #[verifier::type_invariant]
    spec fn wf(self) -> bool {
        unique_ids(self.entries())
    }

    /// An empty table.
    pub fn new() -> (t: PeerTable)
        ensures
            t.entries().len() == 0,
    {
        let t = PeerTable { peers: Vec::new() };
        assert(t.entries() =~= Seq::<PeerView>::empty());
        t
    }

    /// How many peers the table holds.
    pub fn len(&self) -> (n: usize)
        ensures
            n == self.entries().len(),
    {
        self.peers.len()
    }

    fn find(&self, id: &str) -> (r: Option<usize>)
        ensures
            match r {
                Some(k) => k == index_of_id(self.entries(), id@),
                None => index_of_id(self.entries(), id@) < 0,
            },
    {
        let ghost s = self.entries();
        let mut i = self.peers.len();
        assert(s.subrange(0, i as int) =~= s);
        while i > 0
            invariant
                s == self.entries(),
                i <= s.len(),
                index_of_id(s, id@) == index_of_id(s.subrange(0, i as int), id@),
            decreases i,
        {
            assert(s.subrange(0, i as int).last() == s[i - 1]);
            assert(self.peers@[i - 1]@ == s[i - 1]);
            if self.peers[i - 1].id.as_str().unicode_len() == id.unicode_len() && str_equal(
                self.peers[i - 1].id.as_str(),
                id,
            ) {
                return Some(i - 1);
            }
            assert(s.subrange(0, i as int).drop_last() =~= s.subrange(0, i - 1));
            i -= 1;
        }
        None
    }

    /// A copy of the peer with `id`, if the table holds one.
    pub fn get(&self, id: &str) -> (r: Option<Peer>)
        ensures
            match r {
                Some(p) => index_of_id(self.entries(), id@) >= 0 && p@ == self.entries()[index_of_id(
                    self.entries(),
                    id@,
                )],
                None => index_of_id(self.entries(), id@) < 0,
            },
    {
        proof {
            lemma_index_of_id(self.entries(), id@);
        }
        match self.find(id) {
            Some(k) => Some(self.peers[k].copy()),
            None => None,
        }
    }

    /// Records that `p` was heard from: its entry is replaced if its id is
    /// known, otherwise it is added. Tells whether the lobby must be updated.
    pub fn upsert(&mut self, p: Peer) -> (changed: bool)
        ensures
            unique_ids(final(self).entries()),
            final(self).entries() == upsert_spec(old(self).entries(), p@),
            changed == upsert_changes(old(self).entries(), p@),
    {
        proof {
            use_type_invariant(&*self);
        }
        let ghost s = self.entries();
        proof {
            lemma_index_of_id(s, p@.id);
        }
        let found = self.find(p.id.as_str());
        let mut v: Vec<Peer> = Vec::new();
        std::mem::swap(&mut v, &mut self.peers);
        assert(v@.map_values(|q: Peer| q@) == s);
        let ghost pv = p@;
        let changed = match found {
            Some(k) => {
                let changed = !str_equal(v[k].name.as_str(), p.name.as_str()) || v[k].tcp_ip
                    != p.tcp_ip || v[k].tcp_port != p.tcp_port;
                v.set(k, p);
                assert(v@.map_values(|q: Peer| q@) =~= s.update(k as int, pv));
                changed
            },
            None => {
                v.push(p);
                assert(v@.map_values(|q: Peer| q@) =~= s.push(pv));
                true
            },
        };
        proof {
            law_upsert_then_get(s, pv);
        }
        self.peers = v;
        changed
    }

    /// Drops the peers not heard from for `timeout` nanoseconds at `now`.
    /// Tells whether any was dropped.
    pub fn reap(&mut self, now: u64, timeout: u64) -> (changed: bool)
        ensures
            unique_ids(final(self).entries()),
            final(self).entries() == old(self).entries().filter(
                |p: PeerView| is_fresh(p.last_seen, now, timeout),
            ),
            changed == (final(self).entries().len() != old(self).entries().len()),
    {
        proof {
            use_type_invariant(&*self);
        }
        let ghost s = self.entries();
        let ghost keep = |p: PeerView| is_fresh(p.last_seen, now, timeout);
        let before = self.peers.len();
        let mut kept: Vec<Peer> = Vec::new();
        let mut old_peers: Vec<Peer> = Vec::new();
        std::mem::swap(&mut old_peers, &mut self.peers);
        assert(old_peers@.map_values(|p: Peer| p@) == s);
        let mut i: usize = 0;
        while i < old_peers.len()
            invariant
                s == old_peers@.map_values(|p: Peer| p@),
                i <= s.len(),
                kept@.map_values(|p: Peer| p@) == s.subrange(0, i as int).filter(keep),
                keep == (|p: PeerView| is_fresh(p.last_seen, now, timeout)),
            decreases s.len() - i,
        {
            let ls = old_peers[i].last_seen;
            let age = now.saturating_sub(ls);
            assert(s.subrange(0, i + 1).drop_last() =~= s.subrange(0, i as int));
            assert(s.subrange(0, i + 1).last() == s[i as int]);
            assert(s.subrange(0, i + 1).filter(keep) == if keep(s[i as int]) {
                s.subrange(0, i as int).filter(keep).push(s[i as int])
            } else {
                s.subrange(0, i as int).filter(keep)
            }) by {
                reveal(Seq::filter);
            }
            assert(s[i as int] == old_peers@[i as int]@);
            if age < timeout {
                let p = old_peers[i].copy();
                let ghost pv = p@;
                kept.push(p);
                assert(kept@.map_values(|p: Peer| p@) =~= s.subrange(0, i as int).filter(keep).push(pv));
            }
            i += 1;
        }
        assert(s.subrange(0, s.len() as int) =~= s);
        proof {
            lemma_filter_unique(s, keep);
        }
        let after = kept.len();
        self.peers = kept;
        after != before
    }

    /// Copies of all the entries.
    pub fn snapshot(&self) -> (r: Vec<Peer>)
        ensures
            r@.map_values(|p: Peer| p@) == self.entries(),
    {
        copy_peers(&self.peers)
    }
}

/// Filtering keeps ids unique.
proof fn lemma_filter_unique(s: Seq<PeerView>, keep: spec_fn(PeerView) -> bool)
    requires
        unique_ids(s),
    ensures
        unique_ids(s.filter(keep)),
    decreases s.len(),
{
    if s.len() > 0 {
        let init = s.drop_last();
        assert(unique_ids(init)) by {
            assert forall|i: int, j: int|
                0 <= i < init.len() && 0 <= j < init.len() && i != j implies init[i].id
                != init[j].id by {
                assert(init[i] == s[i]);
                assert(init[j] == s[j]);
            }
        }
        lemma_filter_unique(init, keep);
        assert(s.filter(keep) == if keep(s.last()) {
            init.filter(keep).push(s.last())
        } else {
            init.filter(keep)
        }) by {
            reveal(Seq::filter);
        }
        if keep(s.last()) {
            let f = init.filter(keep);
            assert forall|k: int| 0 <= k < f.len() implies f[k].id != s.last().id by {
                assert(f.contains(f[k]));
                init.lemma_filter_contains_rev(keep, f[k]);
                let j = choose|j: int| 0 <= j < init.len() && init[j] == f[k];
                assert(init[j] == s[j]);
            }
        }
    }
}

/// Whether the two strings are equal.
pub fn str_equal(a: &str, b: &str) -> (r: bool)
    ensures
        r == (a@ == b@),
{
    let x = crate::textutil::chars_of(a);
    let y = crate::textutil::chars_of(b);
    if x.len() != y.len() {
        return false;
    }
    let mut i: usize = 0;
    while i < x.len()
        invariant
            x@ == a@,
            y@ == b@,
            x@.len() == y@.len(),
            i <= x@.len(),
            forall|j: int| 0 <= j < i ==> x@[j] == y@[j],
        decreases x@.len() - i,
    {
        if x[i] != y[i] {
            return false;
        }
        i += 1;
    }
    assert(x@ =~= y@);
    true
}

/// Reading a peer back after recording it gives that peer: the entry for its
/// id is exactly what was heard last.
pub proof fn law_upsert_then_get(s: Seq<PeerView>, p: PeerView)
    requires
        unique_ids(s),
    ensures
        index_of_id(upsert_spec(s, p), p.id) >= 0,
        upsert_spec(s, p)[index_of_id(upsert_spec(s, p), p.id)] == p,
        unique_ids(upsert_spec(s, p)),
{
    lemma_index_of_id(s, p.id);
    let t = upsert_spec(s, p);
    let k = index_of_id(s, p.id);
    lemma_index_of_id(t, p.id);
    let kt = index_of_id(t, p.id);
    if k >= 0 {
        assert(t[k].id == p.id);
        assert forall|i: int, j: int| 0 <= i < t.len() && 0 <= j < t.len() && i != j implies t[i].id
            != t[j].id by {
            if i != k {
                assert(t[i] == s[i]);
            }
            if j != k {
                assert(t[j] == s[j]);
            }
        }
        if kt != k {
            assert(t[kt] == s[kt]);
        }
    } else {
        assert(t[s.len() as int] == p);
        assert forall|i: int, j: int| 0 <= i < t.len() && 0 <= j < t.len() && i != j implies t[i].id
            != t[j].id by {
            if i < s.len() {
                assert(t[i] == s[i]);
            }
            if j < s.len() {
                assert(t[j] == s[j]);
            }
        }
        if kt < s.len() {
            assert(t[kt] == s[kt]);
        }
    }
}

/// Hearing from a peer a second time with nothing new changes nothing.
pub proof fn law_upsert_twice(s: Seq<PeerView>, p: PeerView)
    requires
        unique_ids(s),
    ensures
        upsert_spec(upsert_spec(s, p), p) == upsert_spec(s, p),
        !upsert_changes(upsert_spec(s, p), p),
{
    law_upsert_then_get(s, p);
    let t = upsert_spec(s, p);
    lemma_index_of_id(t, p.id);
    let k = index_of_id(t, p.id);
    assert(t.update(k, p) =~= t);
}


/// The peer a discovery datagram announces, heard from `ip` at `now`: the
/// datagram, without the line ending at its end, must read as a `HELLO`
/// frame, and frames that carry our own id `my_id` are ignored.
pub fn discovery_peer(datagram: &str, my_id: &str, ip: u32, now: u64) -> (r: Option<Peer>)
    ensures
        match hello_udp_spec(trim_line_end(datagram@)) {
            Some((id, port, name)) => if id == my_id@ {
                r is None
            } else {
                r matches Some(p) && p@ == (PeerView {
                    id,
                    name,
                    tcp_ip: ip,
                    tcp_port: port,
                    last_seen: now,
                })
            },
            None => r is None,
        },
{
    let line = trim_line_end_of(datagram);
    match parse_hello(line.as_str()) {
        Some(h) => {
            if str_equal(h.id.as_str(), my_id) {
                None
            } else {
                Some(Peer { id: h.id, name: h.name, tcp_ip: ip, tcp_port: h.tcp_port, last_seen: now })
            }
        },
        None => None,
    }
}

} // verus!
