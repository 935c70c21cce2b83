//! The table of peers heard on the network, keyed by IP address.
//!
//! Every announcement replaces what was known of its IP address; peers not
//! heard from for [`STALE_TIMEOUT_MS`] milliseconds are dropped. Time is a
//! monotonic millisecond counter handed in by the caller.

use vstd::prelude::*;
use crate::protocol::{DiscoveryMessage, STALE_TIMEOUT_MS};
use crate::text::text_eq;

verus! {

/// A peer as the table remembers it.
pub struct Sharer {
    pub hostname: String,
    pub ip: String,
    pub port: u16,
    pub sharing: String,
    pub mode: String,
    pub source: String,
    /// When the peer was last heard from, in milliseconds.
    pub last_seen_ms: u64,
}

/// A peer as the interfaces list it.
#[derive(Debug, Clone)]
pub struct SharerInfo {
    pub hostname: String,
    pub ip: String,
    pub port: u16,
    pub sharing: String,
    pub mode: String,
    pub source: String,
}

/// No two entries share an IP address.
pub open spec fn ips_distinct(s: Seq<Sharer>) -> bool {
    forall|i: int, j: int|
        0 <= i < s.len() && 0 <= j < s.len() && i != j ==> #[trigger] s[i].ip@ != #[trigger] s[j].ip@
}

/// Some entry has IP address `ip`.
pub open spec fn has_ip(s: Seq<Sharer>, ip: Seq<char>) -> bool {
    exists|k: int| 0 <= k < s.len() && #[trigger] s[k].ip@ == ip
}

/// The position of the entry with IP address `ip`, where there is one.
pub open spec fn index_of_ip(s: Seq<Sharer>, ip: Seq<char>) -> int {
    choose|k: int| 0 <= k < s.len() && #[trigger] s[k].ip@ == ip
}

/// What the table knows of IP address `ip`.
pub open spec fn lookup(s: Seq<Sharer>, ip: Seq<char>) -> Option<Sharer> {
    if has_ip(s, ip) {
        Some(s[index_of_ip(s, ip)])
    } else {
        None
    }
}

/// The entries after recording `p`: it replaces the entry with its IP
/// address, or comes last when there was none.
pub open spec fn upserted(s: Seq<Sharer>, p: Sharer) -> Seq<Sharer> {
    if has_ip(s, p.ip@) {
        s.update(index_of_ip(s, p.ip@), p)
    } else {
        s.push(p)
    }
}

/// The entries after recording, in order, every announcement of `msgs`
/// heard at `now`.
pub open spec fn upserted_all(s: Seq<Sharer>, msgs: Seq<DiscoveryMessage>, now: u64) -> Seq<Sharer>
    decreases msgs.len(),
{
    if msgs.len() == 0 {
        s
    } else {
        upserted(upserted_all(s, msgs.drop_last(), now), sharer_of(msgs.last(), now))
    }
}

/// Milliseconds since `p` was heard from at time `now` (zero if the clock
/// reads earlier than the entry).
pub open spec fn age_ms(p: Sharer, now: u64) -> int {
    if now >= p.last_seen_ms {
        now - p.last_seen_ms
    } else {
        0
    }
}

/// The peer was heard from less than [`STALE_TIMEOUT_MS`] ago.
pub open spec fn is_fresh(p: Sharer, now: u64) -> bool {
    age_ms(p, now) < STALE_TIMEOUT_MS
}

/// A peer heard at time `t` is fresh at every time before `t + 6000`
/// milliseconds (and at times the clock reads earlier than `t`), and stale
/// from `t + 6000` on.
pub proof fn law_stale_after_six_seconds(p: Sharer, now: u64)
    ensures
        now < p.last_seen_ms + 6000 ==> is_fresh(p, now),
        now >= p.last_seen_ms + 6000 ==> !is_fresh(p, now),
{
}

/// The listing of `p`.
pub open spec fn info_of(p: Sharer) -> SharerInfo {
    SharerInfo {
        hostname: p.hostname,
        ip: p.ip,
        port: p.port,
        sharing: p.sharing,
        mode: p.mode,
        source: p.source,
    }
}

/// The entry recorded for `msg`, heard at `now`.
pub open spec fn sharer_of(msg: DiscoveryMessage, now: u64) -> Sharer {
    Sharer {
        hostname: msg.hostname,
        ip: msg.ip,
        port: msg.port,
        sharing: msg.sharing,
        mode: msg.mode,
        source: msg.source,
        last_seen_ms: now,
    }
}

impl Sharer {
    /// The entry for an announcement heard at `now_ms`.
    pub fn from_message(msg: DiscoveryMessage, now_ms: u64) -> (res: Sharer)
        ensures
            res == sharer_of(msg, now_ms),
    {
        Sharer {
            hostname: msg.hostname,
            ip: msg.ip,
            port: msg.port,
            sharing: msg.sharing,
            mode: msg.mode,
            source: msg.source,
            last_seen_ms: now_ms,
        }
    }

    /// The listing of this peer.
    pub fn info(&self) -> (res: SharerInfo)
        ensures
            res == info_of(*self),
    {
        SharerInfo {
            hostname: self.hostname.clone(),
            ip: self.ip.clone(),
            port: self.port,
            sharing: self.sharing.clone(),
            mode: self.mode.clone(),
            source: self.source.clone(),
        }
    }
}

/// The peers heard on the network.
pub struct SharerTable {
    entries: Vec<Sharer>,
}

impl View for SharerTable {
    type V = Seq<Sharer>;

    closed spec fn view(&self) -> Seq<Sharer> {
        self.entries@
    }
}

impl SharerTable {
    #[verifier::type_invariant]
    spec fn wf(&self) -> bool {
        ips_distinct(self.entries@)
    }

    /// An empty table.
    pub fn new() -> (res: SharerTable)
        ensures
            res@ == Seq::<Sharer>::empty(),
    {
        SharerTable { entries: Vec::new() }
    }

    /// The number of peers in the table.
    pub fn len(&self) -> (res: usize)
        ensures
            res == self@.len(),
            ips_distinct(self@),
    {
        proof {
            use_type_invariant(self);
        }
        self.entries.len()
    }

    /// The position of the entry with IP address `ip`, if any.
    fn find(&self, ip: &str) -> (res: Option<usize>)
        ensures
            match res {
                Some(k) => k < self@.len() && self@[k as int].ip@ == ip@,
                None => !has_ip(self@, ip@),
            },
    {
        let mut i: usize = 0;
        while i < self.entries.len()
            invariant
                i <= self.entries@.len(),
                forall|j: int| 0 <= j < i ==> self.entries@[j].ip@ != ip@,
            decreases self.entries@.len() - i,
        {
            if text_eq(self.entries[i].ip.as_str(), ip) {
                return Some(i);
            }
            i = i + 1;
        }
        None
    }

    /// Records an announcement heard at `now_ms`: what was known of its IP
    /// address is replaced.
    pub fn upsert(&mut self, msg: DiscoveryMessage, now_ms: u64)
        ensures
            final(self)@ == upserted(old(self)@, sharer_of(msg, now_ms)),
            ips_distinct(final(self)@),
    {
        proof {
            use_type_invariant(&*self);
        }
        let p = Sharer::from_message(msg, now_ms);
        let ghost old_entries = self.entries@;
        match self.find(p.ip.as_str()) {
            Some(k) => {
                proof {
                    lemma_index_of_ip_unique(old_entries, k as int);
                }
                let mut entries: Vec<Sharer> = Vec::new();
                std::mem::swap(&mut entries, &mut self.entries);
                entries.set(k, p);
                self.entries = entries;
            },
            None => {
                let mut entries: Vec<Sharer> = Vec::new();
                std::mem::swap(&mut entries, &mut self.entries);
                entries.push(p);
                self.entries = entries;
            },
        }
    }

    /// Drops the peers not heard from for [`STALE_TIMEOUT_MS`] milliseconds
    /// at time `now_ms`; the others keep their order.
    pub fn prune(&mut self, now_ms: u64)
        ensures
            final(self)@ == old(self)@.filter(|p: Sharer| is_fresh(p, now_ms)),
            ips_distinct(final(self)@),
    {
        proof {
            use_type_invariant(&*self);
        }
        let ghost pred = |p: Sharer| is_fresh(p, now_ms);
        let ghost old_entries = self.entries@;
        let mut entries: Vec<Sharer> = Vec::new();
        std::mem::swap(&mut entries, &mut self.entries);
        let mut kept: Vec<Sharer> = Vec::new();
        let n = entries.len();
        let mut i: usize = 0;
        while i < n
            invariant
                n == old_entries.len(),
                i <= n,
                ips_distinct(old_entries),
                entries@ == old_entries.skip(i as int),
                kept@ == old_entries.take(i as int).filter(pred),
                ips_distinct(kept@),
                pred == (|p: Sharer| is_fresh(p, now_ms)),
            decreases n - i,
        {
            let p = entries.remove(0);
            proof {
                assert(p == old_entries[i as int]);
                assert(old_entries.take(i + 1) =~= old_entries.take(i as int).push(p));
                old_entries.take(i as int).lemma_filter_push(p, pred);
                assert(entries@ =~= old_entries.skip(i + 1));
            }
            if p.last_seen_ms > now_ms || now_ms - p.last_seen_ms < STALE_TIMEOUT_MS {
                let ghost before = kept@;
                kept.push(p);
                proof {
                    assert forall|a: int, b: int|
                        0 <= a < kept@.len() && 0 <= b < kept@.len() && a != b implies
                        #[trigger] kept@[a].ip@ != #[trigger] kept@[b].ip@ by {
                        if a == before.len() || b == before.len() {
                            let other = if a == before.len() { b } else { a };
                            old_entries.take(i as int).lemma_filter_contains_rev(pred, before[other]);
                            let j = choose|j: int| 0 <= j < i && old_entries.take(i as int)[j] == before[other];
                            assert(old_entries[j] == before[other]);
                        }
                    }
                }
            }
            i = i + 1;
        }
        assert(old_entries.take(n as int) =~= old_entries);
        self.entries = kept;
    }
}

impl SharerTable {
    /// Records, in order, the announcements received since the last update,
    /// all heard at `now_ms`, then drops the peers gone stale.
    pub fn update(&mut self, received: Vec<DiscoveryMessage>, now_ms: u64)
        ensures
            final(self)@ == upserted_all(old(self)@, received@, now_ms).filter(
                |p: Sharer| is_fresh(p, now_ms),
            ),
            ips_distinct(final(self)@),
    {
        let ghost start = self@;
        let ghost all = received@;
        let mut rest = received;
        let n = rest.len();
        let mut i: usize = 0;
        while i < n
            invariant
                n == all.len(),
                i <= n,
                rest@ == all.skip(i as int),
                self@ == upserted_all(start, all.take(i as int), now_ms),
            decreases n - i,
        {
            let msg = rest.remove(0);
            proof {
                assert(all.take(i + 1).drop_last() =~= all.take(i as int));
                assert(all.take(i + 1).last() == msg);
                assert(rest@ =~= all.skip(i + 1));
            }
            self.upsert(msg, now_ms);
            i = i + 1;
        }
        assert(all.take(n as int) =~= all);
        self.prune(now_ms);
    }

    /// The listing of every peer, in table order.
    pub fn infos(&self) -> (res: Vec<SharerInfo>)
        ensures
            res@ == self@.map_values(|p: Sharer| info_of(p)),
    {
        let mut res: Vec<SharerInfo> = Vec::new();
        let mut i: usize = 0;
        while i < self.entries.len()
            invariant
                i <= self.entries@.len(),
                res@ == self.entries@.take(i as int).map_values(|p: Sharer| info_of(p)),
            decreases self.entries@.len() - i,
        {
            res.push(self.entries[i].info());
            assert(self.entries@.take(i + 1) =~= self.entries@.take(i as int).push(self.entries@[i as int]));
            i = i + 1;
        }
        assert(self.entries@.take(i as int) =~= self.entries@);
        res
    }
}

/// Recording an announcement makes it what the table knows of its IP
/// address, and the addresses stay distinct.
pub proof fn law_upsert_then_lookup(s: Seq<Sharer>, p: Sharer)
    requires
        ips_distinct(s),
    ensures
        lookup(upserted(s, p), p.ip@) == Some(p),
        ips_distinct(upserted(s, p)),
{
    let other = p.ip@.push('x');
    assert(other.len() != p.ip@.len());
    lemma_upsert(s, p, other);
}

/// Recording an announcement leaves what the table knows of every other
/// address unchanged.
pub proof fn law_upsert_keeps_others(s: Seq<Sharer>, p: Sharer, other: Seq<char>)
    requires
        ips_distinct(s),
        other != p.ip@,
    ensures
        lookup(upserted(s, p), other) == lookup(s, other),
{
    lemma_upsert(s, p, other);
}

proof fn lemma_upsert(s: Seq<Sharer>, p: Sharer, other: Seq<char>)
    requires
        ips_distinct(s),
        other != p.ip@,
    ensures
        lookup(upserted(s, p), p.ip@) == Some(p),
        lookup(upserted(s, p), other) == lookup(s, other),
        ips_distinct(upserted(s, p)),
{
    let u = upserted(s, p);
    if has_ip(s, p.ip@) {
        let k = index_of_ip(s, p.ip@);
        assert(u[k].ip@ == p.ip@);
        assert(ips_distinct(u));
        lemma_index_of_ip_unique(u, k);
        if has_ip(s, other) {
            let j = index_of_ip(s, other);
            assert(u[j] == s[j]);
            lemma_index_of_ip_unique(u, j);
        } else {
            assert(!has_ip(u, other)) by {
                if has_ip(u, other) {
                    let j = index_of_ip(u, other);
                    assert(s[j].ip@ == other);
                }
            }
        }
    } else {
        let k = s.len() as int;
        assert(u[k] == p);
        assert(ips_distinct(u));
        lemma_index_of_ip_unique(u, k);
        if has_ip(s, other) {
            let j = index_of_ip(s, other);
            assert(u[j] == s[j]);
            lemma_index_of_ip_unique(u, j);
        } else {
            assert(!has_ip(u, other)) by {
                if has_ip(u, other) {
                    let j = index_of_ip(u, other);
                    assert(j != k);
                    assert(s[j].ip@ == other);
                }
            }
        }
    }
}

/// After pruning at `now`, the table knows of an address exactly what it
/// knew before if that peer was heard from less than the stale timeout ago,
/// and nothing otherwise.
pub proof fn law_prune_lookup(s: Seq<Sharer>, now: u64, ip: Seq<char>)
    requires
        ips_distinct(s),
    ensures
        lookup(s.filter(|p: Sharer| is_fresh(p, now)), ip) == (match lookup(s, ip) {
            Some(q) => if is_fresh(q, now) { Some(q) } else { None },
            None => None,
        }),
{
    let pred = |p: Sharer| is_fresh(p, now);
    let f = s.filter(pred);
    lemma_filter_keeps_distinct(s, pred);
    if has_ip(f, ip) {
        let j = index_of_ip(f, ip);
        s.lemma_filter_contains_rev(pred, f[j]);
        s.lemma_filter_pred(pred, j);
        let k = choose|k: int| 0 <= k < s.len() && s[k] == f[j];
        lemma_index_of_ip_unique(s, k);
    } else if has_ip(s, ip) {
        let k = index_of_ip(s, ip);
        if is_fresh(s[k], now) {
            s.lemma_filter_contains(pred, k);
            let j = choose|j: int| 0 <= j < f.len() && f[j] == s[k];
            assert(f[j].ip@ == ip);
        }
    }
}

/// A peer recorded at `now` is still known after pruning at `now`.
pub proof fn law_recorded_peer_survives_prune(s: Seq<Sharer>, msg: DiscoveryMessage, now: u64)
    requires
        ips_distinct(s),
    ensures
        lookup(upserted(s, sharer_of(msg, now)).filter(|p: Sharer| is_fresh(p, now)), msg.ip@)
            == Some(sharer_of(msg, now)),
{
    let p = sharer_of(msg, now);
    law_upsert_then_lookup(s, p);
    law_prune_lookup(upserted(s, p), now, msg.ip@);
}

proof fn lemma_filter_keeps_distinct(s: Seq<Sharer>, pred: spec_fn(Sharer) -> bool)
    requires
        ips_distinct(s),
    ensures
        ips_distinct(s.filter(pred)),
    decreases s.len(),
{
    if s.len() > 0 {
        let d = s.drop_last();
        let last = s.last();
        assert(ips_distinct(d)) by {
            assert forall|a: int, b: int| 0 <= a < d.len() && 0 <= b < d.len() && a != b implies
                #[trigger] d[a].ip@ != #[trigger] d[b].ip@ by {
                assert(d[a] == s[a] && d[b] == s[b]);
            }
        }
        lemma_filter_keeps_distinct(d, pred);
        let fd = d.filter(pred);
        assert(s =~= d.push(last));
        d.lemma_filter_push(last, pred);
        if pred(last) {
            let f = fd.push(last);
            assert forall|a: int, b: int| 0 <= a < f.len() && 0 <= b < f.len() && a != b implies
                #[trigger] f[a].ip@ != #[trigger] f[b].ip@ by {
                if a == fd.len() || b == fd.len() {
                    let other = if a == fd.len() { b } else { a };
                    d.lemma_filter_contains_rev(pred, fd[other]);
                    let j = choose|j: int| 0 <= j < d.len() && d[j] == fd[other];
                    assert(s[j] == fd[other]);
                    assert(s[s.len() - 1] == last);
                } else {
                    assert(f[a] == fd[a] && f[b] == fd[b]);
                }
            }
        }
    }
}

proof fn lemma_index_of_ip_unique(s: Seq<Sharer>, k: int)
    requires
        ips_distinct(s),
        0 <= k < s.len(),
    ensures
        has_ip(s, s[k].ip@),
        index_of_ip(s, s[k].ip@) == k,
{
    assert(s[k].ip@ == s[k].ip@);
}


proof fn lemma_upserted_all_distinct(s: Seq<Sharer>, msgs: Seq<DiscoveryMessage>, now: u64)
    requires
        ips_distinct(s),
    ensures
        ips_distinct(upserted_all(s, msgs, now)),
    decreases msgs.len(),
{
    if msgs.len() > 0 {
        lemma_upserted_all_distinct(s, msgs.drop_last(), now);
        law_upsert_then_lookup(upserted_all(s, msgs.drop_last(), now), sharer_of(msgs.last(), now));
    }
}

/// After an update at `now`, for every address announced in the update the
/// table holds the entry built from the last announcement of that address,
/// heard at `now`; in particular that peer is not pruned as stale.
pub proof fn law_update_keeps_latest_announcement(
    s: Seq<Sharer>,
    msgs: Seq<DiscoveryMessage>,
    now: u64,
    j: int,
)
    requires
        ips_distinct(s),
        0 <= j < msgs.len(),
        forall|k: int| j < k < msgs.len() ==> #[trigger] msgs[k].ip@ != msgs[j].ip@,
    ensures
        lookup(upserted_all(s, msgs, now), msgs[j].ip@) == Some(sharer_of(msgs[j], now)),
        lookup(upserted_all(s, msgs, now).filter(|p: Sharer| is_fresh(p, now)), msgs[j].ip@)
            == Some(sharer_of(msgs[j], now)),
        sharer_of(msgs[j], now).last_seen_ms == now,
    decreases msgs.len(),
{
    let n = msgs.len() as int;
    let ip = msgs[j].ip@;
    let rest = msgs.drop_last();
    let prev = upserted_all(s, rest, now);
    lemma_upserted_all_distinct(s, rest, now);
    if j == n - 1 {
        law_upsert_then_lookup(prev, sharer_of(msgs.last(), now));
    } else {
        assert forall|k: int| j < k < rest.len() implies #[trigger] rest[k].ip@ != rest[j].ip@ by {
            assert(rest[k] == msgs[k]);
            assert(msgs[k].ip@ != msgs[j].ip@);
        }
        law_update_keeps_latest_announcement(s, rest, now, j);
        assert(msgs[n - 1].ip@ != ip);
        law_upsert_keeps_others(prev, sharer_of(msgs.last(), now), ip);
    }
    lemma_upserted_all_distinct(s, msgs, now);
    law_prune_lookup(upserted_all(s, msgs, now), now, ip);
}

/// An update leaves what the table knows of an address that none of its
/// announcements names unchanged, before pruning.
pub proof fn law_update_keeps_unannounced(
    s: Seq<Sharer>,
    msgs: Seq<DiscoveryMessage>,
    now: u64,
    ip: Seq<char>,
)
    requires
        ips_distinct(s),
        forall|k: int| 0 <= k < msgs.len() ==> #[trigger] msgs[k].ip@ != ip,
    ensures
        lookup(upserted_all(s, msgs, now), ip) == lookup(s, ip),
    decreases msgs.len(),
{
    if msgs.len() > 0 {
        let rest = msgs.drop_last();
        assert forall|k: int| 0 <= k < rest.len() implies #[trigger] rest[k].ip@ != ip by {
            assert(rest[k] == msgs[k]);
        }
        law_update_keeps_unannounced(s, rest, now, ip);
        lemma_upserted_all_distinct(s, rest, now);
        assert(msgs[msgs.len() - 1].ip@ != ip);
        law_upsert_keeps_others(upserted_all(s, rest, now), sharer_of(msgs.last(), now), ip);
    }
}

} // verus!
