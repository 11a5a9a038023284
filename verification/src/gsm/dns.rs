//! Host name cache in front of the network stack's resolver.
//!
//! Four entries (host name, IPv4 address, time stored) live 300 s. A name
//! found fresh in the cache is answered from it; otherwise the application
//! asks the network stack and hands the answer here, where an IPv4 answer
//! is stored: over an entry of the same name, in an empty entry, or over
//! the oldest entry. Times are milliseconds of a monotonic clock.

use vstd::prelude::*;
use vstd::utf8::{encode_utf8, valid_utf8};

use crate::error::DnsError;
use crate::text::{str_from_utf8, text_of_bytes, utf8_text};

verus! {

/// Entries of the cache.
pub const DNS_CACHE_SIZE: usize = 4;
/// Lifetime of an entry, in seconds.
pub const DNS_CACHE_TTL_SECS: u64 = 300;
/// Bytes of a stored host name.
pub const MAX_HOSTNAME_LEN: usize = 48;

/// The monotonic clock, in milliseconds.
///
/// Trusted: calls `embassy_time::Instant::now` and reads it with
/// `Instant::as_millis`. The reading depends on the time, so nothing is
/// stated of it.
#[verifier::external_body]
fn clock_ms() -> (r: u64) {
    embassy_time::Instant::now().as_millis()
}

/// Whether entry `e` counts as expired for the clock reading `now`: as
/// `entry_expired` from its time on, and only when empty before it.
pub open spec fn expired_reading(e: DnsCacheEntry, now: u64) -> bool {
    if now >= e.timestamp {
        entry_expired(e, now)
    } else {
        e.hostname_len == 0
    }
}

/// Every entry of `c` was stored no later than `now`.
pub open spec fn stamped_by(c: Seq<DnsCacheEntry>, now: u64) -> bool {
    forall|i: int| 0 <= i < c.len() ==> now >= #[trigger] c[i].timestamp
}

/// What a lookup of `name` finds for the clock reading `now`: the address
/// of the first fresh entry when every entry is stamped by then, otherwise
/// nothing.
pub open spec fn lookup_reading(c: Seq<DnsCacheEntry>, name: Seq<u8>, now: u64) -> Option<[u8; 4]> {
    if stamped_by(c, now) {
        match first_fresh(c, name, now) {
            Some(i) => Some(c[i].ip),
            None => None,
        }
    } else {
        None
    }
}

/// One cache entry.
#[derive(Debug, Clone, Copy)]
pub struct DnsCacheEntry {
    /// Host name bytes (zero after the name).
    pub hostname: [u8; MAX_HOSTNAME_LEN],
    /// Length of the stored name; 0 for an empty entry.
    pub hostname_len: usize,
    /// The address.
    pub ip: [u8; 4],
    /// Time the entry was stored, in ms.
    pub timestamp: u64,
}

/// The stored name bytes of an entry.
pub open spec fn stored_name(e: DnsCacheEntry) -> Seq<u8> {
    e.hostname@.take(e.hostname_len as int)
}

/// The entry holds a name that reads as `name`: its stored bytes are valid
/// UTF-8 equal to the name's bytes, or (when they are not valid UTF-8 and
/// read as the empty text) `name` is empty.
pub open spec fn entry_matches(e: DnsCacheEntry, name: Seq<u8>) -> bool {
    &&& e.hostname_len != 0
    &&& if valid_utf8(stored_name(e)) {
        stored_name(e) == name
    } else {
        name.len() == 0
    }
}

/// The entry is empty or at least 300 s old at `now`.
pub open spec fn entry_expired(e: DnsCacheEntry, now: u64) -> bool {
    e.hostname_len == 0 || (now - e.timestamp) / 1000 >= DNS_CACHE_TTL_SECS
}

/// The first `n` bytes of `name` (at most 48) followed by zeros.
pub open spec fn name_bytes(name: Seq<u8>, i: int) -> u8 {
    let n = if name.len() < 48 {
        name.len() as int
    } else {
        48
    };
    if i < n {
        name[i]
    } else {
        0
    }
}

/// `e` now holds `name` (cut to 48 bytes), `ip` and time `now`.
pub open spec fn entry_set(e: DnsCacheEntry, name: Seq<u8>, ip: [u8; 4], now: u64) -> bool {
    &&& e.hostname_len == if name.len() < 48 {
        name.len()
    } else {
        48
    }
    &&& forall|i: int| 0 <= i < 48 ==> e.hostname[i] == name_bytes(name, i)
    &&& e.ip == ip
    &&& e.timestamp == now
}

impl DnsCacheEntry {
    /// An empty entry.
    pub fn empty() -> (r: DnsCacheEntry)
        ensures
            r.hostname_len == 0,
            r.ip@ == seq![0u8, 0, 0, 0],
            r.timestamp == 0,
    {
        let r = DnsCacheEntry { hostname: [0u8; 48], hostname_len: 0, ip: [0u8; 4], timestamp: 0 };
        assert(r.ip@ =~= seq![0u8, 0, 0, 0]);
        r
    }

    /// The entry is empty.
    pub fn is_empty(&self) -> (r: bool)
        ensures
            r == (self.hostname_len == 0),
    {
        self.hostname_len == 0
    }

    /// The entry is empty or at least 300 s old at `now` (not before it
    /// was stored).
    pub fn is_expired_at(&self, now: u64) -> (r: bool)
        requires
            now >= self.timestamp,
        ensures
            r == entry_expired(*self, now),
    {
        if self.is_empty() {
            return true;
        }
        (now - self.timestamp) / 1000 >= DNS_CACHE_TTL_SECS
    }

    /// The entry is empty or at least 300 s old now, by the clock. A clock
    /// reading before the entry's time (which a monotonic clock does not
    /// give for entries it stamped) counts as a fresh entry.
    pub fn is_expired(&self) -> (r: bool)
        ensures
            self.hostname_len == 0 ==> r,
            exists|now: u64| #[trigger] expired_reading(*self, now) == r,
    {
        let now = clock_ms();
        if now < self.timestamp {
            let r = self.is_empty();
            assert(expired_reading(*self, now) == r);
            return r;
        }
        let r = self.is_expired_at(now);
        assert(expired_reading(*self, now) == r);
        r
    }

    /// Stores `name`, cut to 48 bytes, with zeros after it.
    pub fn set_hostname(&mut self, name: &str)
        ensures
            final(self).hostname_len == if encode_utf8(name@).len() < 48 {
                encode_utf8(name@).len()
            } else {
                48
            },
            forall|i: int|
                0 <= i < 48 ==> final(self).hostname[i] == name_bytes(encode_utf8(name@), i),
            final(self).ip == old(self).ip,
            final(self).timestamp == old(self).timestamp,
    {
        let bytes = name.as_bytes();
        let n = if bytes.len() < MAX_HOSTNAME_LEN {
            bytes.len()
        } else {
            MAX_HOSTNAME_LEN
        };
        let mut h: [u8; 48] = [0u8; 48];
        let mut i: usize = 0;
        while i < n
            invariant
                i <= n,
                n <= 48,
                n <= bytes@.len(),
                n == if bytes@.len() < 48 {
                    bytes@.len() as int
                } else {
                    48
                },
                forall|k: int| 0 <= k < i ==> h[k] == bytes@[k],
                forall|k: int| i <= k < 48 ==> h[k] == 0,
            decreases n - i,
        {
            h[i] = bytes[i];
            i = i + 1;
        }
        self.hostname = h;
        self.hostname_len = n;
    }

    /// The stored name as text (empty when its bytes are not valid UTF-8).
    pub fn hostname_str(&self) -> (r: String)
        requires
            self.hostname_len <= 48,
        ensures
            r@ == utf8_text(stored_name(*self)),
    {
        let v = vstd::slice::slice_subrange(self.hostname.as_slice(), 0, self.hostname_len);
        assert(v@ =~= stored_name(*self));
        text_of_bytes(v)
    }

    /// The stored name is `name`'s bytes (see `entry_matches`, without the
    /// emptiness test).
    fn name_is(&self, name: &[u8]) -> (r: bool)
        requires
            self.hostname_len <= 48,
        ensures
            r == (if valid_utf8(stored_name(*self)) {
                stored_name(*self) == name@
            } else {
                name@.len() == 0
            }),
    {
        let len = self.hostname_len;
        let mut stored: Vec<u8> = Vec::new();
        let mut i: usize = 0;
        while i < len
            invariant
                i <= len,
                len == self.hostname_len,
                len <= 48,
                stored@ == self.hostname@.take(i as int),
            decreases len - i,
        {
            stored.push(self.hostname[i]);
            assert(stored@ =~= self.hostname@.take(i + 1));
            i = i + 1;
        }
        assert(stored@ =~= stored_name(*self));
        match str_from_utf8(stored.as_slice()) {
            Some(_) => {
                if stored.len() != name.len() {
                    assert(stored@.len() != name@.len());
                    return false;
                }
                let mut k: usize = 0;
                while k < name.len()
                    invariant
                        k <= name@.len(),
                        stored@.len() == name@.len(),
                        stored@ == stored_name(*self),
                        valid_utf8(stored@),
                        forall|j: int| 0 <= j < k ==> stored@[j] == name@[j],
                    decreases name@.len() - k,
                {
                    if stored[k] != name[k] {
                        assert(stored@[k as int] != name@[k as int]);
                        assert(stored@ != name@);
                        return false;
                    }
                    k = k + 1;
                }
                assert(stored@ =~= name@);
                true
            },
            None => name.len() == 0,
        }
    }
}

impl Default for DnsCacheEntry {
    /// An empty entry stamped with the clock.
    fn default() -> (r: DnsCacheEntry)
        ensures
            r.hostname_len == 0,
            r.ip@ == seq![0u8, 0, 0, 0],
    {
        let mut e = DnsCacheEntry::empty();
        e.timestamp = clock_ms();
        e
    }
}

/// What the network stack answered for a name.
#[derive(Debug, Clone, Copy)]
pub enum DnsAnswer {
    /// The first address is this IPv4 address.
    Ipv4([u8; 4]),
    /// Addresses, but the first is not IPv4.
    NotIpv4,
    /// The query failed.
    Failed,
}

/// Host name cache.
pub struct DnsResolver {
    cache: [DnsCacheEntry; DNS_CACHE_SIZE],
}

/// The first fresh entry matching `name`, if any.
pub open spec fn first_fresh(c: Seq<DnsCacheEntry>, name: Seq<u8>, now: u64) -> Option<int> {
    if exists|i: int| 0 <= i < c.len() && entry_matches(c[i], name) && !entry_expired(c[i], now) {
        Some(
            choose|i: int|
                0 <= i < c.len() && entry_matches(c[i], name) && !entry_expired(c[i], now)
                    && forall|j: int|
                    0 <= j < i ==> !(entry_matches(c[j], name) && !entry_expired(c[j], now)),
        )
    } else {
        None
    }
}

impl DnsResolver {
    /// The cache entries.
    pub closed spec fn entries(&self) -> Seq<DnsCacheEntry> {
        self.cache@
    }

    #[verifier::type_invariant]
    spec fn wf(self) -> bool {
        forall|i: int| 0 <= i < 4 ==> #[trigger] self.cache[i].hostname_len <= 48
    }

    /// An empty cache.
    pub fn new() -> (r: DnsResolver)
        ensures
            r.entries().len() == 4,
            forall|i: int| 0 <= i < 4 ==> #[trigger] r.entries()[i].hostname_len == 0,
    {
        let e = DnsCacheEntry::empty();
        DnsResolver { cache: [e, e, e, e] }
    }

    /// Empties the cache.
    pub fn clear_cache(&mut self)
        ensures
            final(self).entries().len() == 4,
            forall|i: int| 0 <= i < 4 ==> #[trigger] final(self).entries()[i].hostname_len == 0,
    {
        let e = DnsCacheEntry::empty();
        self.cache = [e, e, e, e];
    }

    /// The address of the first fresh entry for `hostname` at `now`, if
    /// any (`now` is not before any entry's time).
    pub fn lookup_cache_at(&self, hostname: &str, now: u64) -> (r: Option<[u8; 4]>)
        requires
            forall|i: int| 0 <= i < 4 ==> now >= #[trigger] self.entries()[i].timestamp,
        ensures
            match first_fresh(self.entries(), encode_utf8(hostname@), now) {
                Some(i) => r == Some(self.entries()[i].ip),
                None => r is None,
            },
    {
        proof {
            use_type_invariant(self);
        }
        let name = hostname.as_bytes();
        let ghost c = self.cache@;
        let ghost nm = name@;
        let mut i: usize = 0;
        while i < DNS_CACHE_SIZE
            invariant
                i <= 4,
                c == self.cache@,
                nm == name@,
                nm == encode_utf8(hostname@),
                forall|k: int| 0 <= k < 4 ==> now >= #[trigger] c[k].timestamp,
                forall|k: int| 0 <= k < 4 ==> #[trigger] c[k].hostname_len <= 48,
                forall|j: int| 0 <= j < i ==> !(entry_matches(c[j], nm) && !entry_expired(c[j], now)),
            decreases 4 - i,
        {
            let e = self.cache[i];
            if !e.is_empty() && !e.is_expired_at(now) && e.name_is(name) {
                proof {
                    lemma_first_fresh_at(c, nm, now, i as int);
                }
                return Some(e.ip);
            }
            i = i + 1;
        }
        None
    }

    /// Stores `ip` for `hostname` at `now`: over the first entry holding
    /// that name or the first empty entry, whichever comes first; when
    /// every entry holds another name, over the oldest one (the first of
    /// those stored before `now` with the smallest time, else the first).
    pub fn update_cache_at(&mut self, hostname: &str, ip: [u8; 4], now: u64)
        ensures
            final(self).entries().len() == 4,
            cache_updated(old(self).entries(), final(self).entries(), encode_utf8(hostname@), ip, now),
    {
        proof {
            use_type_invariant(&*self);
        }
        let name = hostname.as_bytes();
        let mut oldest_idx: usize = 0;
        let mut oldest_time: u64 = now;
        let mut i: usize = 0;
        let ghost c = self.cache@;
        while i < DNS_CACHE_SIZE
            invariant
                i <= 4,
                oldest_idx < 4,
                c == self.cache@,
                c == old(self).cache@,
                name@ == encode_utf8(hostname@),
                forall|k: int| 0 <= k < 4 ==> #[trigger] c[k].hostname_len <= 48,
                forall|t: int| 0 <= t < i ==> c[t].hostname_len != 0 && !entry_matches(c[t], name@),
                (oldest_idx, oldest_time) == oldest_scan(c, now, i as int),
            decreases 4 - i,
        {
            let e = self.cache[i];
            if !e.is_empty() && e.name_is(name) {
                let mut ne = e;
                ne.ip = ip;
                ne.timestamp = now;
                self.cache[i] = ne;
                proof {
                    lemma_store_slot_at(c, name@, now, i as int);
                    assert(self.cache@ =~= c.update(i as int, ne));
                }
                return;
            }
            if e.is_empty() {
                let mut ne = e;
                ne.set_hostname(hostname);
                ne.ip = ip;
                ne.timestamp = now;
                self.cache[i] = ne;
                proof {
                    lemma_store_slot_at(c, name@, now, i as int);
                    assert(self.cache@ =~= c.update(i as int, ne));
                }
                return;
            }
            if e.timestamp < oldest_time {
                oldest_time = e.timestamp;
                oldest_idx = i;
            }
            i = i + 1;
        }
        let mut ne = DnsCacheEntry::empty();
        ne.set_hostname(hostname);
        ne.ip = ip;
        ne.timestamp = now;
        self.cache[oldest_idx] = ne;
        proof {
            lemma_store_slot_oldest(c, name@, now);
            assert(self.cache@ =~= c.update(oldest_idx as int, ne));
        }
    }

    /// The address of the first fresh entry for `hostname` now, by the
    /// clock (see `lookup_cache_at`). A clock reading before some entry's
    /// time (which a monotonic clock does not give for entries it stamped)
    /// finds nothing.
    pub fn lookup_cache(&self, hostname: &str) -> (r: Option<[u8; 4]>)
        ensures
            exists|now: u64| #[trigger] lookup_reading(self.entries(), encode_utf8(hostname@), now)
                == r,
    {
        proof {
            use_type_invariant(self);
        }
        let now = clock_ms();
        let mut i: usize = 0;
        while i < DNS_CACHE_SIZE
            invariant
                i <= 4,
                forall|k: int| 0 <= k < i ==> now >= #[trigger] self.entries()[k].timestamp,
            decreases 4 - i,
        {
            if now < self.cache[i].timestamp {
                assert(!stamped_by(self.entries(), now));
                assert(lookup_reading(self.entries(), encode_utf8(hostname@), now) is None);
                return None;
            }
            i = i + 1;
        }
        let r = self.lookup_cache_at(hostname, now);
        assert(lookup_reading(self.entries(), encode_utf8(hostname@), now) == r);
        r
    }

    /// Stores `ip` for `hostname` now, by the clock (see `update_cache_at`).
    pub fn update_cache(&mut self, hostname: &str, ip: [u8; 4])
        ensures
            final(self).entries().len() == 4,
            exists|now: u64|
                #[trigger] cache_updated(
                    old(self).entries(),
                    final(self).entries(),
                    encode_utf8(hostname@),
                    ip,
                    now,
                ),
    {
        let now = clock_ms();
        self.update_cache_at(hostname, ip, now);
    }

    /// The address to use: the resolved one, or `fallback` when resolving
    /// failed.
    pub fn resolve_or_fallback(result: Result<[u8; 4], DnsError>, fallback: [u8; 4]) -> (r: [u8; 4])
        ensures
            r == match result {
                Ok(ip) => ip,
                Err(_) => fallback,
            },
    {
        match result {
            Ok(ip) => ip,
            Err(_) => fallback,
        }
    }

    /// Looks `hostname` up at `now`: the cached address when a fresh entry
    /// holds it (`Some`), otherwise nothing and the application asks the
    /// network.
    pub fn resolve_cached(&self, hostname: &str, now: u64) -> (r: Option<[u8; 4]>)
        requires
            forall|i: int| 0 <= i < 4 ==> now >= #[trigger] self.entries()[i].timestamp,
        ensures
            match first_fresh(self.entries(), encode_utf8(hostname@), now) {
                Some(i) => r == Some(self.entries()[i].ip),
                None => r is None,
            },
    {
        self.lookup_cache_at(hostname, now)
    }

    /// The network's answer for `hostname`, at `now`: an IPv4 address is
    /// stored (see `update_cache_at`) and returned; an answer without IPv4
    /// gives `HostNotFound`, a failed query `QueryFailed`, and the cache is
    /// kept.
    pub fn resolve_answer(&mut self, hostname: &str, now: u64, answer: DnsAnswer) -> (r: Result<
        [u8; 4],
        DnsError,
    >)
        ensures
            match answer {
                DnsAnswer::Ipv4(ip) => r == Ok::<[u8; 4], DnsError>(ip) && cache_updated(
                    old(self).entries(),
                    final(self).entries(),
                    encode_utf8(hostname@),
                    ip,
                    now,
                ),
                DnsAnswer::NotIpv4 => r == Err::<[u8; 4], DnsError>(DnsError::HostNotFound)
                    && final(self).entries() == old(self).entries(),
                DnsAnswer::Failed => r == Err::<[u8; 4], DnsError>(DnsError::QueryFailed)
                    && final(self).entries() == old(self).entries(),
            },
    {
        match answer {
            DnsAnswer::Ipv4(ip) => {
                self.update_cache_at(hostname, ip, now);
                Ok(ip)
            },
            DnsAnswer::NotIpv4 => Err(DnsError::HostNotFound),
            DnsAnswer::Failed => Err(DnsError::QueryFailed),
        }
    }
}

/// `f` is the cache `c` after `ip` was stored for `name` at `now`: the
/// entry `store_slot` gets the address and the time, and the name too
/// unless it already held it; the other entries are unchanged.
pub open spec fn cache_updated(
    c: Seq<DnsCacheEntry>,
    f: Seq<DnsCacheEntry>,
    name: Seq<u8>,
    ip: [u8; 4],
    now: u64,
) -> bool {
    let k = store_slot(c, name, now);
    &&& f.len() == 4
    &&& 0 <= k < 4
    &&& forall|j: int| 0 <= j < 4 && j != k ==> f[j] == c[j]
    &&& f[k].ip == ip && f[k].timestamp == now
    &&& (c[k].hostname_len != 0 && entry_matches(c[k], name)) ==> f[k].hostname == c[k].hostname
        && f[k].hostname_len == c[k].hostname_len
    &&& !(c[k].hostname_len != 0 && entry_matches(c[k], name)) ==> entry_set(f[k], name, ip, now)
}

/// A stored answer is found again while it is fresh: after `ip` is stored
/// for a name of 1 to 48 bytes at `now`, a lookup of that name at any time
/// before 300 s have passed finds this entry and its address.
pub proof fn lemma_stored_answer_is_found(
    c: Seq<DnsCacheEntry>,
    f: Seq<DnsCacheEntry>,
    name: Seq<char>,
    ip: [u8; 4],
    now: u64,
    t: u64,
)
    requires
        c.len() == 4,
        forall|i: int| 0 <= i < 4 ==> #[trigger] c[i].hostname_len <= 48,
        0 < encode_utf8(name).len() <= MAX_HOSTNAME_LEN,
        cache_updated(c, f, encode_utf8(name), ip, now),
        now <= t,
        t - now < DNS_CACHE_TTL_SECS * 1000,
    ensures
        first_fresh(f, encode_utf8(name), t) == Some(store_slot(c, encode_utf8(name), now)),
        f[store_slot(c, encode_utf8(name), now)].ip == ip,
{
    let nm = encode_utf8(name);
    let k = store_slot(c, nm, now);
    vstd::utf8::encode_utf8_valid_utf8(name);
    if exists|j: int| 0 <= j < 4 && (c[j].hostname_len == 0 || entry_matches(c[j], nm)) {
        let w = choose|j: int|
            0 <= j < 4 && (c[j].hostname_len == 0 || entry_matches(c[j], nm)) && forall|t2: int|
                0 <= t2 < j ==> !(c[t2].hostname_len == 0 || entry_matches(c[t2], nm));
        assert(k == w);
    }
    assert(forall|j: int| 0 <= j < k ==> !(c[j].hostname_len == 0 || entry_matches(c[j], nm)));
    if !(c[k].hostname_len != 0 && entry_matches(c[k], nm)) {
        assert(f[k].hostname_len == nm.len());
        assert forall|i: int| 0 <= i < nm.len() implies stored_name(f[k])[i] == nm[i] by {
            assert(f[k].hostname[i] == name_bytes(nm, i));
        }
        assert(stored_name(f[k]) =~= nm);
    }
    assert(entry_matches(f[k], nm));
    assert((t - now) / 1000 < DNS_CACHE_TTL_SECS);
    assert(!entry_expired(f[k], t));
    lemma_first_fresh_at(f, nm, t, k);
}

/// The oldest entry among the first `n`: its index and time, starting from
/// index 0 and time `now` and taking an entry only when strictly older.
pub open spec fn oldest_scan(c: Seq<DnsCacheEntry>, now: u64, n: int) -> (usize, u64)
    decreases n,
{
    if n <= 0 {
        (0, now)
    } else {
        let (i, t) = oldest_scan(c, now, n - 1);
        if c[n - 1].timestamp < t {
            ((n - 1) as usize, c[n - 1].timestamp)
        } else {
            (i, t)
        }
    }
}

/// The entry an update of `name` at `now` writes: the first entry that
/// holds `name` or is empty; otherwise the oldest.
pub open spec fn store_slot(c: Seq<DnsCacheEntry>, name: Seq<u8>, now: u64) -> int {
    if exists|j: int| 0 <= j < 4 && (c[j].hostname_len == 0 || entry_matches(c[j], name)) {
        choose|j: int|
            0 <= j < 4 && (c[j].hostname_len == 0 || entry_matches(c[j], name)) && forall|t: int|
                0 <= t < j ==> !(c[t].hostname_len == 0 || entry_matches(c[t], name))
    } else {
        oldest_scan(c, now, 4).0 as int
    }
}

proof fn lemma_first_fresh_at(c: Seq<DnsCacheEntry>, name: Seq<u8>, now: u64, i: int)
    requires
        0 <= i < c.len(),
        entry_matches(c[i], name) && !entry_expired(c[i], now),
        forall|j: int| 0 <= j < i ==> !(entry_matches(c[j], name) && !entry_expired(c[j], now)),
    ensures
        first_fresh(c, name, now) == Some(i),
{
    let k = choose|k: int|
        0 <= k < c.len() && entry_matches(c[k], name) && !entry_expired(c[k], now) && forall|j: int|
            0 <= j < k ==> !(entry_matches(c[j], name) && !entry_expired(c[j], now));
    assert(0 <= i < c.len() && entry_matches(c[i], name) && !entry_expired(c[i], now) && forall|
        j: int,
    | 0 <= j < i ==> !(entry_matches(c[j], name) && !entry_expired(c[j], now)));
    if k < i {
    } else if k > i {
    }
}

proof fn lemma_oldest_scan_range(c: Seq<DnsCacheEntry>, now: u64, n: int)
    requires
        0 <= n <= 4,
    ensures
        0 <= oldest_scan(c, now, n).0 < 4,
    decreases n,
{
    if n > 0 {
        lemma_oldest_scan_range(c, now, n - 1);
    }
}

proof fn lemma_store_slot_at(c: Seq<DnsCacheEntry>, name: Seq<u8>, now: u64, i: int)
    requires
        0 <= i < 4,
        c.len() == 4,
        c[i].hostname_len == 0 || entry_matches(c[i], name),
        forall|t: int| 0 <= t < i ==> c[t].hostname_len != 0 && !entry_matches(c[t], name),
    ensures
        store_slot(c, name, now) == i,
{
    let k = choose|j: int|
        0 <= j < 4 && (c[j].hostname_len == 0 || entry_matches(c[j], name)) && forall|t: int|
            0 <= t < j ==> !(c[t].hostname_len == 0 || entry_matches(c[t], name));
    assert(0 <= i < 4 && (c[i].hostname_len == 0 || entry_matches(c[i], name)) && forall|t: int|
        0 <= t < i ==> !(c[t].hostname_len == 0 || entry_matches(c[t], name)));
    if k < i {
    } else if k > i {
    }
}

proof fn lemma_store_slot_oldest(c: Seq<DnsCacheEntry>, name: Seq<u8>, now: u64)
    requires
        c.len() == 4,
        forall|t: int| 0 <= t < 4 ==> c[t].hostname_len != 0 && !entry_matches(c[t], name),
    ensures
        store_slot(c, name, now) == oldest_scan(c, now, 4).0 as int,
        0 <= store_slot(c, name, now) < 4,
{
    lemma_oldest_scan_range(c, now, 4);
}

} // verus!
