use vstd::prelude::*;
use crate::bytes::append_all;
use crate::bytes::spec_ascii_lower;

verus! {

pub const CACHE_SLOTS: usize = 8;
pub const DNS_CACHE_TTL_MS: u64 = 60_000;
pub const DNS_NAME_MAX: usize = 256;
pub const ARP_CACHE_TTL_MS: u64 = 120_000;

/// A cache entry: in use, key, value, expiry time in milliseconds.
pub type CacheSlot = (bool, Seq<u8>, Seq<u8>, u64);

/// First slot at or after `from` in use with key `key`, or the slot count.
pub open spec fn live_slot(s: Seq<CacheSlot>, key: Seq<u8>, from: int) -> int
    decreases s.len() - from,
{
    if from >= s.len() {
        s.len() as int
    } else if s[from].0 && s[from].1 == key {
        from
    } else {
        live_slot(s, key, from + 1)
    }
}

/// First slot at or after `from` not in use, or the slot count.
pub open spec fn idle_slot(s: Seq<CacheSlot>, from: int) -> int
    decreases s.len() - from,
{
    if from >= s.len() {
        s.len() as int
    } else if !s[from].0 {
        from
    } else {
        idle_slot(s, from + 1)
    }
}

pub proof fn lemma_live_slot(s: Seq<CacheSlot>, key: Seq<u8>, from: int)
    requires
        0 <= from <= s.len(),
    ensures
        from <= live_slot(s, key, from) <= s.len(),
        live_slot(s, key, from) < s.len() ==> s[live_slot(s, key, from)].0 && s[live_slot(
            s,
            key,
            from,
        )].1 == key,
        forall|k: int| from <= k < live_slot(s, key, from) ==> !(s[k].0 && s[k].1 == key),
    decreases s.len() - from,
{
    if from < s.len() && !(s[from].0 && s[from].1 == key) {
        lemma_live_slot(s, key, from + 1);
    }
}

pub proof fn lemma_idle_slot(s: Seq<CacheSlot>, from: int)
    requires
        0 <= from <= s.len(),
    ensures
        from <= idle_slot(s, from) <= s.len(),
        idle_slot(s, from) < s.len() ==> !s[idle_slot(s, from)].0,
        forall|k: int| from <= k < idle_slot(s, from) ==> s[k].0,
    decreases s.len() - from,
{
    if from < s.len() && s[from].0 {
        lemma_idle_slot(s, from + 1);
    }
}

/// The slot a store of `key` goes to: the one in use with that key, else the first idle
/// one, else the round-robin victim `next`.
pub open spec fn store_slot(s: Seq<CacheSlot>, key: Seq<u8>, next: int) -> int {
    if live_slot(s, key, 0) < s.len() {
        live_slot(s, key, 0)
    } else if idle_slot(s, 0) < s.len() {
        idle_slot(s, 0)
    } else {
        next
    }
}

/// The victim pointer after a store.
pub open spec fn next_after_store(s: Seq<CacheSlot>, key: Seq<u8>, next: int) -> int {
    if live_slot(s, key, 0) < s.len() || idle_slot(s, 0) < s.len() {
        next
    } else {
        (next + 1) % (CACHE_SLOTS as int)
    }
}

/// A lookup of `key` at time `now` from slot `i` on: entries in use that have expired are
/// dropped as they are passed; the value of the first live entry with the key is returned.
pub open spec fn lookup_from(s: Seq<CacheSlot>, key: Seq<u8>, now: u64, i: int) -> (
    Seq<CacheSlot>,
    Option<Seq<u8>>,
)
    decreases s.len() - i,
{
    if i < 0 || i >= s.len() {
        (s, None)
    } else if s[i].0 && s[i].3 <= now {
        lookup_from(s.update(i, (false, s[i].1, s[i].2, s[i].3)), key, now, i + 1)
    } else if s[i].0 && s[i].1 == key {
        (s, Some(s[i].2))
    } else {
        lookup_from(s, key, now, i + 1)
    }
}

/// A small cache of byte-string keys and values whose entries expire `ttl` milliseconds
/// after they are stored.
pub struct TtlCache {
    keys: Vec<Vec<u8>>,
    values: Vec<Vec<u8>>,
    expiry: Vec<u64>,
    valid: Vec<bool>,
    next: usize,
    ttl: u64,
}

impl TtlCache {
    pub closed spec fn slots(&self) -> Seq<CacheSlot> {
        Seq::new(
            CACHE_SLOTS as nat,
            |i: int| (self.valid@[i], self.keys@[i]@, self.values@[i]@, self.expiry@[i]),
        )
    }

    pub closed spec fn next(&self) -> int {
        self.next as int
    }

    pub closed spec fn ttl(&self) -> u64 {
        self.ttl
    }

    pub closed spec fn wf(&self) -> bool {
        &&& self.keys.len() == CACHE_SLOTS
        &&& self.values.len() == CACHE_SLOTS
        &&& self.expiry.len() == CACHE_SLOTS
        &&& self.valid.len() == CACHE_SLOTS
        &&& self.next < CACHE_SLOTS
    }

    pub proof fn lemma_wf(&self)
        requires
            self.wf(),
        ensures
            self.slots().len() == CACHE_SLOTS,
            0 <= self.next() < CACHE_SLOTS,
    {
    }

    /// An empty cache whose entries live `ttl` milliseconds.
    pub fn new(ttl: u64) -> (r: Self)
        ensures
            r.wf(),
            r.ttl() == ttl,
            r.next() == 0,
            forall|i: int| 0 <= i < CACHE_SLOTS ==> !(#[trigger] r.slots()[i]).0,
    {
        let mut keys: Vec<Vec<u8>> = Vec::new();
        let mut values: Vec<Vec<u8>> = Vec::new();
        let mut expiry: Vec<u64> = Vec::new();
        let mut valid: Vec<bool> = Vec::new();
        let mut i = 0usize;
        while i < CACHE_SLOTS
            invariant
                i <= CACHE_SLOTS,
                keys.len() == i,
                values.len() == i,
                expiry.len() == i,
                valid.len() == i,
                forall|k: int| 0 <= k < i ==> !#[trigger] valid@[k],
            decreases CACHE_SLOTS - i,
        {
            keys.push(Vec::new());
            values.push(Vec::new());
            expiry.push(0);
            valid.push(false);
            i += 1;
        }
        TtlCache { keys, values, expiry, valid, next: 0, ttl }
    }

    fn find_live(&self, key: &[u8]) -> (r: usize)
        requires
            self.wf(),
        ensures
            r == live_slot(self.slots(), key@, 0),
    {
        let mut i = 0usize;
        while i < CACHE_SLOTS && !(self.valid[i] && crate::bytes::bytes_eq(self.keys[i].as_slice(), key))
            invariant
                self.wf(),
                i <= CACHE_SLOTS,
                live_slot(self.slots(), key@, 0) == live_slot(self.slots(), key@, i as int),
            decreases CACHE_SLOTS - i,
        {
            i += 1;
        }
        i
    }

    fn find_idle(&self) -> (r: usize)
        requires
            self.wf(),
        ensures
            r == idle_slot(self.slots(), 0),
    {
        let mut i = 0usize;
        while i < CACHE_SLOTS && self.valid[i]
            invariant
                self.wf(),
                i <= CACHE_SLOTS,
                idle_slot(self.slots(), 0) == idle_slot(self.slots(), i as int),
            decreases CACHE_SLOTS - i,
        {
            i += 1;
        }
        i
    }

    /// Stores `value` under `key` at time `now` (see `store_slot`); the entry expires at
    /// `now + ttl`.
    pub fn store(&mut self, key: &[u8], value: &[u8], now: u64)
        requires
            old(self).wf(),
            now <= u64::MAX - old(self).ttl(),
        ensures
            final(self).wf(),
            final(self).ttl() == old(self).ttl(),
            final(self).slots() == old(self).slots().update(
                store_slot(old(self).slots(), key@, old(self).next()),
                (true, key@, value@, (now + old(self).ttl()) as u64),
            ),
            final(self).next() == next_after_store(old(self).slots(), key@, old(self).next()),
    {
        proof {
            lemma_live_slot(self.slots(), key@, 0);
            lemma_idle_slot(self.slots(), 0);
        }
        let live = self.find_live(key);
        let slot = if live < CACHE_SLOTS {
            live
        } else {
            let idle = self.find_idle();
            if idle < CACHE_SLOTS {
                idle
            } else {
                let victim = self.next;
                self.next = (self.next + 1) % CACHE_SLOTS;
                victim
            }
        };
        let ghost before = self.slots();
        let mut k: Vec<u8> = Vec::new();
        append_all(&mut k, key);
        let mut v: Vec<u8> = Vec::new();
        append_all(&mut v, value);
        self.keys.set(slot, k);
        self.values.set(slot, v);
        self.expiry.set(slot, now + self.ttl);
        self.valid.set(slot, true);
        assert(self.slots() =~= before.update(slot as int, (true, key@, value@, (now + self.ttl) as u64)));
    }

    /// The value stored under `key` and still live at time `now` (see `lookup_from`).
    pub fn lookup(&mut self, key: &[u8], now: u64) -> (r: Option<Vec<u8>>)
        requires
            old(self).wf(),
        ensures
            final(self).wf(),
            final(self).ttl() == old(self).ttl(),
            final(self).next() == old(self).next(),
            final(self).slots() == lookup_from(old(self).slots(), key@, now, 0).0,
            match r {
                Some(v) => lookup_from(old(self).slots(), key@, now, 0).1 == Some(v@),
                None => lookup_from(old(self).slots(), key@, now, 0).1 is None,
            },
    {
        let ghost target = lookup_from(self.slots(), key@, now, 0);
        let mut i = 0usize;
        let mut found: Option<Vec<u8>> = None;
        while i < CACHE_SLOTS && found.is_none()
            invariant
                self.wf(),
                self.ttl() == old(self).ttl(),
                self.next() == old(self).next(),
                i <= CACHE_SLOTS,
                found is None ==> lookup_from(self.slots(), key@, now, i as int) == target,
                found matches Some(v) ==> target == (self.slots(), Some(v@)),
            decreases CACHE_SLOTS - i, if found is None { 1int } else { 0int },
        {
            if self.valid[i] {
                if self.expiry[i] <= now {
                    let ghost before = self.slots();
                    self.valid.set(i, false);
                    assert(self.slots() =~= before.update(
                        i as int,
                        (false, before[i as int].1, before[i as int].2, before[i as int].3),
                    ));
                } else if crate::bytes::bytes_eq(self.keys[i].as_slice(), key) {
                    let mut v: Vec<u8> = Vec::new();
                    append_all(&mut v, self.values[i].as_slice());
                    found = Some(v);
                }
            }
            if found.is_none() {
                i += 1;
            }
        }
        found
    }
}

/// A value stored under a key is what a lookup of that key returns until the entry
/// expires.
pub proof fn lemma_store_then_lookup(
    s: Seq<CacheSlot>,
    next: int,
    key: Seq<u8>,
    value: Seq<u8>,
    now: u64,
    ttl: u64,
    later: u64,
)
    requires
        s.len() == CACHE_SLOTS,
        0 <= next < CACHE_SLOTS,
        now + ttl <= u64::MAX,
        later < now + ttl,
    ensures
        lookup_from(
            s.update(store_slot(s, key, next), (true, key, value, (now + ttl) as u64)),
            key,
            later,
            0,
        ).1 == Some(value),
{
    lemma_live_slot(s, key, 0);
    lemma_idle_slot(s, 0);
    let t = store_slot(s, key, next);
    let s2 = s.update(t, (true, key, value, (now + ttl) as u64));
    assert forall|k: int| 0 <= k < t implies !(s2[k].0 && s2[k].1 == key) by {
        assert(s2[k] == s[k]);
    }
    lemma_lookup_reaches(s2, key, later, 0, t);
}

/// A lookup that passes no live entry with the key before slot `t` reaches `t` with
/// that slot unchanged.
pub proof fn lemma_lookup_reaches(s: Seq<CacheSlot>, key: Seq<u8>, now: u64, i: int, t: int)
    requires
        0 <= i <= t < s.len(),
        forall|k: int| i <= k < t ==> !(s[k].0 && s[k].1 == key),
        s[t].0 && s[t].1 == key && s[t].3 > now,
    ensures
        lookup_from(s, key, now, i).1 == Some(s[t].2),
    decreases t - i,
{
    if i < t {
        if s[i].0 && s[i].3 <= now {
            let s2 = s.update(i, (false, s[i].1, s[i].2, s[i].3));
            assert forall|k: int| i + 1 <= k < t implies !(s2[k].0 && s2[k].1 == key) by {
                assert(s2[k] == s[k]);
            }
            lemma_lookup_reaches(s2, key, now, i + 1, t);
        } else {
            lemma_lookup_reaches(s, key, now, i + 1, t);
        }
    }
}

// ---------------------------------------------------------------------------
// Name and peer caches
// ---------------------------------------------------------------------------

pub open spec fn lower_seq(s: Seq<u8>) -> Seq<u8> {
    s.map_values(|b: u8| spec_ascii_lower(b))
}

fn lower_bytes(s: &[u8]) -> (r: Vec<u8>)
    ensures
        r@ == lower_seq(s@),
{
    let mut r: Vec<u8> = Vec::new();
    let mut i = 0usize;
    while i < s.len()
        invariant
            i <= s.len(),
            r@ == lower_seq(s@.take(i as int)),
        decreases s.len() - i,
    {
        r.push(crate::bytes::ascii_lower(s[i]));
        i += 1;
        assert(lower_seq(s@.take(i as int)) =~= lower_seq(s@.take(i - 1)).push(spec_ascii_lower(s@[i - 1])));
    }
    assert(s@.take(s.len() as int) =~= s@);
    r
}

pub open spec fn ip_seq(ip: [u8; 4]) -> Seq<u8> {
    seq![ip[0], ip[1], ip[2], ip[3]]
}

pub open spec fn mac_seq(mac: [u8; 6]) -> Seq<u8> {
    seq![mac[0], mac[1], mac[2], mac[3], mac[4], mac[5]]
}

pub open spec fn dns_name_cacheable(name: Seq<u8>) -> bool {
    0 < name.len() <= DNS_NAME_MAX
}

/// Resolved host names, compared without case, each kept `DNS_CACHE_TTL_MS`.
pub struct DnsCache {
    cache: TtlCache,
}

/// Entries in use hold values of `n` bytes.
pub open spec fn values_of_len(s: Seq<CacheSlot>, n: int) -> bool {
    forall|i: int| 0 <= i < s.len() && (#[trigger] s[i]).0 ==> s[i].2.len() == n
}

pub proof fn lemma_lookup_value_len(s: Seq<CacheSlot>, key: Seq<u8>, now: u64, i: int, n: int)
    requires
        values_of_len(s, n),
    ensures
        values_of_len(lookup_from(s, key, now, i).0, n),
        lookup_from(s, key, now, i).1 matches Some(v) ==> v.len() == n,
    decreases s.len() - i,
{
    if i < 0 || i >= s.len() {
    } else if s[i].0 && s[i].3 <= now {
        let s2 = s.update(i, (false, s[i].1, s[i].2, s[i].3));
        assert(values_of_len(s2, n));
        lemma_lookup_value_len(s2, key, now, i + 1, n);
    } else if s[i].0 && s[i].1 == key {
    } else {
        lemma_lookup_value_len(s, key, now, i + 1, n);
    }
}

impl DnsCache {
    pub closed spec fn slots(&self) -> Seq<CacheSlot> {
        self.cache.slots()
    }

    pub closed spec fn next(&self) -> int {
        self.cache.next()
    }

    pub closed spec fn wf(&self) -> bool {
        &&& self.cache.wf()
        &&& self.cache.ttl() == DNS_CACHE_TTL_MS
        &&& values_of_len(self.cache.slots(), 4)
    }

    pub proof fn lemma_wf(&self)
        requires
            self.wf(),
        ensures
            self.slots().len() == CACHE_SLOTS,
            0 <= self.next() < CACHE_SLOTS,
    {
    }

    /// An empty cache.
    pub fn new() -> (r: Self)
        ensures
            r.wf(),
            r.next() == 0,
            forall|i: int| 0 <= i < CACHE_SLOTS ==> !(#[trigger] r.slots()[i]).0,
    {
        DnsCache { cache: TtlCache::new(DNS_CACHE_TTL_MS) }
    }

    /// The address cached for `name` (any case) at time `now`; `None` for an empty name or
    /// one longer than `DNS_NAME_MAX` bytes.
    pub fn dns_cache_lookup(&mut self, name: &[u8], now: u64) -> (r: Option<[u8; 4]>)
        requires
            old(self).wf(),
        ensures
            final(self).wf(),
            final(self).next() == old(self).next(),
            !dns_name_cacheable(name@) ==> r is None && final(self).slots() == old(self).slots(),
            dns_name_cacheable(name@) ==> final(self).slots() == lookup_from(
                old(self).slots(),
                lower_seq(name@),
                now,
                0,
            ).0 && match r {
                Some(ip) => lookup_from(old(self).slots(), lower_seq(name@), now, 0).1 == Some(
                    ip_seq(ip),
                ),
                None => lookup_from(old(self).slots(), lower_seq(name@), now, 0).1 is None,
            },
    {
        if name.len() == 0 || name.len() > DNS_NAME_MAX {
            return None;
        }
        let key = lower_bytes(name);
        proof {
            lemma_lookup_value_len(self.cache.slots(), key@, now, 0, 4);
        }
        match self.cache.lookup(key.as_slice(), now) {
            Some(v) => {
                let ip = [v[0], v[1], v[2], v[3]];
                assert(ip_seq(ip) =~= v@);
                Some(ip)
            },
            None => None,
        }
    }

    /// Caches `ip` for `name` (stored in lower case) at time `now`; nothing happens for an
    /// empty name or one longer than `DNS_NAME_MAX` bytes.
    pub fn dns_cache_store(&mut self, name: &[u8], ip: [u8; 4], now: u64)
        requires
            old(self).wf(),
            now <= u64::MAX - DNS_CACHE_TTL_MS,
        ensures
            final(self).wf(),
            !dns_name_cacheable(name@) ==> final(self).slots() == old(self).slots(),
            !dns_name_cacheable(name@) ==> final(self).next() == old(self).next(),
            dns_name_cacheable(name@) ==> final(self).slots() == old(self).slots().update(
                store_slot(old(self).slots(), lower_seq(name@), old(self).next()),
                (true, lower_seq(name@), ip_seq(ip), (now + DNS_CACHE_TTL_MS) as u64),
            ),
            dns_name_cacheable(name@) ==> final(self).next() == next_after_store(
                old(self).slots(),
                lower_seq(name@),
                old(self).next(),
            ),
    {
        if name.len() == 0 || name.len() > DNS_NAME_MAX {
            return ;
        }
        let key = lower_bytes(name);
        let value: [u8; 4] = ip;
        assert(value@ =~= ip_seq(ip));
        self.cache.store(key.as_slice(), &value, now);
        proof {
            lemma_live_slot(old(self).slots(), key@, 0);
            lemma_idle_slot(old(self).slots(), 0);
            let s = self.cache.slots();
            assert forall|i: int| 0 <= i < s.len() && (#[trigger] s[i]).0 implies s[i].2.len() == 4 by {
                if i != store_slot(old(self).slots(), lower_seq(name@), old(self).next()) {
                    assert(s[i] == old(self).slots()[i]);
                }
            }
        }
    }
}

/// Hardware addresses of peers by IPv4 address, each kept `ARP_CACHE_TTL_MS`.
pub struct ArpCache {
    cache: TtlCache,
}

impl ArpCache {
    pub closed spec fn slots(&self) -> Seq<CacheSlot> {
        self.cache.slots()
    }

    pub closed spec fn next(&self) -> int {
        self.cache.next()
    }

    pub closed spec fn wf(&self) -> bool {
        &&& self.cache.wf()
        &&& self.cache.ttl() == ARP_CACHE_TTL_MS
        &&& values_of_len(self.cache.slots(), 6)
    }

    pub proof fn lemma_wf(&self)
        requires
            self.wf(),
        ensures
            self.slots().len() == CACHE_SLOTS,
            0 <= self.next() < CACHE_SLOTS,
    {
    }

    /// An empty cache.
    pub fn new() -> (r: Self)
        ensures
            r.wf(),
            r.next() == 0,
            forall|i: int| 0 <= i < CACHE_SLOTS ==> !(#[trigger] r.slots()[i]).0,
    {
        ArpCache { cache: TtlCache::new(ARP_CACHE_TTL_MS) }
    }

    /// The hardware address cached for `ip` at time `now`.
    pub fn lookup_arp_peer(&mut self, ip: [u8; 4], now: u64) -> (r: Option<[u8; 6]>)
        requires
            old(self).wf(),
        ensures
            final(self).wf(),
            final(self).next() == old(self).next(),
            final(self).slots() == lookup_from(old(self).slots(), ip_seq(ip), now, 0).0,
            match r {
                Some(mac) => lookup_from(old(self).slots(), ip_seq(ip), now, 0).1 == Some(mac_seq(mac)),
                None => lookup_from(old(self).slots(), ip_seq(ip), now, 0).1 is None,
            },
    {
        let key: [u8; 4] = ip;
        assert(key@ =~= ip_seq(ip));
        proof {
            lemma_lookup_value_len(self.cache.slots(), key@, now, 0, 6);
        }
        match self.cache.lookup(&key, now) {
            Some(v) => {
                let mac = [v[0], v[1], v[2], v[3], v[4], v[5]];
                assert(mac_seq(mac) =~= v@);
                Some(mac)
            },
            None => None,
        }
    }

    /// Caches `mac` for `ip` at time `now` (see `store_slot`).
    pub fn arp_cache_store(&mut self, mac: [u8; 6], ip: [u8; 4], now: u64)
        requires
            old(self).wf(),
            now <= u64::MAX - ARP_CACHE_TTL_MS,
        ensures
            final(self).wf(),
            final(self).slots() == old(self).slots().update(
                store_slot(old(self).slots(), ip_seq(ip), old(self).next()),
                (true, ip_seq(ip), mac_seq(mac), (now + ARP_CACHE_TTL_MS) as u64),
            ),
            final(self).next() == next_after_store(old(self).slots(), ip_seq(ip), old(self).next()),
    {
        let key: [u8; 4] = ip;
        let value: [u8; 6] = mac;
        assert(key@ =~= ip_seq(ip));
        assert(value@ =~= mac_seq(mac));
        self.cache.store(&key, &value, now);
        proof {
            lemma_live_slot(old(self).slots(), key@, 0);
            lemma_idle_slot(old(self).slots(), 0);
            let s = self.cache.slots();
            assert forall|i: int| 0 <= i < s.len() && (#[trigger] s[i]).0 implies s[i].2.len() == 6 by {
                if i != store_slot(old(self).slots(), ip_seq(ip), old(self).next()) {
                    assert(s[i] == old(self).slots()[i]);
                }
            }
        }
    }
}

} // verus!
