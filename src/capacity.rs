//! Capacity reported by connected miners, with a time to live.
use vstd::prelude::*;
use crate::arbiter::elapsed_ms;

verus! {

/// The 32-bit key that `ipaddress` gives the IPv4 address text `s`, if it is one.
pub uninterp spec fn ipv4_key_of(s: Seq<char>) -> Option<u32>;

/// Relies on `ipaddress::IPAddress::split_to_u32`: the key depends on the text alone;
/// its error (a message) becomes `None`.
#[verifier::external_body]
fn split_to_u32(addr: &str) -> (r: Option<u32>)
    ensures
        r == ipv4_key_of(addr@),
{
    ipaddress::IPAddress::split_to_u32(&addr.to_string()).ok()
}

/// Key of an address: its IPv4 key, or 0 where it has none.
pub open spec fn ip_key(s: Seq<char>) -> u32 {
    match ipv4_key_of(s) {
        Some(k) => k,
        None => 0,
    }
}

/// The 32-bit key of an IPv4 address; 0 where the text is none.
pub fn ip_to_u32(ip_address: &str) -> (r: u32)
    ensures
        r == ip_key(ip_address@),
{
    match split_to_u32(ip_address) {
        Some(k) => k,
        None => 0,
    }
}

pub open spec fn is_first_colon(s: Seq<char>, p: int) -> bool {
    &&& 0 <= p < s.len()
    &&& s[p] == ':'
    &&& forall|j: int| 0 <= j < p ==> s[j] != ':'
}

/// The host of an endpoint: the text before its first `:`, where that is not the
/// first character.
pub open spec fn host_part(s: Seq<char>) -> Seq<char> {
    if exists|p: int| is_first_colon(s, p) && p > 0 {
        s.subrange(0, choose|p: int| is_first_colon(s, p) && p > 0)
    } else {
        s
    }
}

/// Host of an endpoint `host:port`.
pub fn host_of_endpoint(endpoint: &str) -> (r: &str)
    ensures
        r@ == host_part(endpoint@),
{
    let n = endpoint.unicode_len();
    let mut i: usize = 0;
    while i < n
        invariant
            n == endpoint@.len(),
            i <= n,
            forall|j: int| 0 <= j < i ==> endpoint@[j] != ':',
        decreases n - i,
    {
        if endpoint.get_char(i) == ':' {
            if i > 0 {
                proof {
                    let s = endpoint@;
                    assert(is_first_colon(s, i as int));
                    let q = choose|p: int| is_first_colon(s, p) && p > 0;
                    if q < i {
                        assert(s[q] != ':');
                    } else if i < q {
                        assert(s[i as int] != ':');
                    }
                }
                return endpoint.substring_char(0, i);
            } else {
                proof {
                    let s = endpoint@;
                    assert forall|p: int| !(is_first_colon(s, p) && p > 0) by {
                        if is_first_colon(s, p) && p > 0 {
                            assert(s[0] != ':');
                        }
                    }
                }
                return endpoint;
            }
        }
        i = i + 1;
    }
    proof {
        let s = endpoint@;
        assert forall|p: int| !(is_first_colon(s, p) && p > 0) by {
            if is_first_colon(s, p) {
                assert(s[p] != ':');
            }
        }
    }
    endpoint
}

/// Capacity last reported by one miner.
#[derive(Clone, Copy, Debug)]
pub struct MinerCapacity {
    pub ip: u32,
    pub capacity_gib: u64,
    /// Millisecond time of the last report.
    pub last_seen: u64,
}

/// Whether a report is recent enough to count.
pub open spec fn is_active(m: MinerCapacity, now: u64, timeout_secs: u64) -> bool {
    elapsed_ms(m.last_seen, now) < timeout_secs as int * 1000
}

/// Sum of the capacity of the active miners, saturating at `u64::MAX`.
pub open spec fn active_sum(s: Seq<MinerCapacity>, now: u64, timeout_secs: u64) -> u64
    decreases s.len(),
{
    if s.len() == 0 {
        0
    } else {
        let rest = active_sum(s.drop_last(), now, timeout_secs);
        let add: int = if is_active(s.last(), now, timeout_secs) {
            s.last().capacity_gib as int
        } else {
            0
        };
        if rest + add > u64::MAX {
            u64::MAX
        } else {
            (rest + add) as u64
        }
    }
}

/// Exact sum of the capacity of the active miners.
pub open spec fn exact_active_sum(s: Seq<MinerCapacity>, now: u64, timeout_secs: u64) -> int
    decreases s.len(),
{
    if s.len() == 0 {
        0
    } else {
        exact_active_sum(s.drop_last(), now, timeout_secs) + if is_active(s.last(), now, timeout_secs) {
            s.last().capacity_gib as int
        } else {
            0
        }
    }
}

/// Where the exact sum of the active miners' capacity fits in 64 bits, the tracked
/// sum is that sum: only miners reported within the timeout count, each once.
pub proof fn lemma_active_sum_exact(s: Seq<MinerCapacity>, now: u64, timeout_secs: u64)
    requires
        exact_active_sum(s, now, timeout_secs) <= u64::MAX,
    ensures
        active_sum(s, now, timeout_secs) == exact_active_sum(s, now, timeout_secs),
    decreases s.len(),
{
    if s.len() > 0 {
        lemma_active_sum_exact(s.drop_last(), now, timeout_secs);
    }
}

/// A miner whose last report is older than the timeout adds nothing to the total,
/// whatever capacity it reported.
pub proof fn lemma_stale_miner_excluded(s: Seq<MinerCapacity>, k: int, capacity_gib: u64, now: u64, timeout_secs: u64)
    requires
        0 <= k < s.len(),
        !is_active(s[k], now, timeout_secs),
    ensures
        active_sum(s.update(k, MinerCapacity { capacity_gib, ..s[k] }), now, timeout_secs) == active_sum(
            s,
            now,
            timeout_secs,
        ),
    decreases s.len(),
{
    let t = s.update(k, MinerCapacity { capacity_gib, ..s[k] });
    if k == s.len() - 1 {
        assert(t.drop_last() =~= s.drop_last());
    } else {
        assert(t.drop_last() =~= s.drop_last().update(k, MinerCapacity { capacity_gib, ..s[k] }));
        lemma_stale_miner_excluded(s.drop_last(), k, capacity_gib, now, timeout_secs);
    }
}

/// Total capacity in GiB: the active miners' sum, or the configured initial capacity
/// where that sum is 0.
pub open spec fn total_gib(s: Seq<MinerCapacity>, now: u64, timeout_secs: u64, initial: Option<u64>) -> u64 {
    let sum = active_sum(s, now, timeout_secs);
    if sum == 0 && initial is Some {
        initial->0
    } else {
        sum
    }
}

pub open spec fn ips_unique(s: Seq<MinerCapacity>) -> bool {
    forall|i: int, j: int| 0 <= i < s.len() && 0 <= j < s.len() && i != j ==> #[trigger] s[i].ip != #[trigger] s[j].ip
}

/// `s` with the report of `ip` replaced, or added where `ip` has none.
pub open spec fn upsert(s: Seq<MinerCapacity>, m: MinerCapacity) -> Seq<MinerCapacity> {
    if exists|k: int| 0 <= k < s.len() && #[trigger] s[k].ip == m.ip {
        s.update(choose|k: int| 0 <= k < s.len() && #[trigger] s[k].ip == m.ip, m)
    } else {
        s.push(m)
    }
}

/// The capacity of `ip` where its report is active, else 0.
pub open spec fn current_capacity(s: Seq<MinerCapacity>, ip: u32, now: u64, timeout_secs: u64) -> u64 {
    if exists|k: int| 0 <= k < s.len() && #[trigger] s[k].ip == ip {
        let m = s[choose|k: int| 0 <= k < s.len() && #[trigger] s[k].ip == ip];
        if is_active(m, now, timeout_secs) {
            m.capacity_gib
        } else {
            0
        }
    } else {
        0
    }
}

/// Capacity reported by connected miners.
pub struct CapacityTracker {
    miners: Vec<MinerCapacity>,
    miner_update_timeout_secs: u64,
    initial_plot_capacity_gib: Option<u64>,
}

impl View for CapacityTracker {
    type V = Seq<MinerCapacity>;

    closed spec fn view(&self) -> Seq<MinerCapacity> {
        self.miners@
    }
}

impl CapacityTracker {
    pub closed spec fn timeout_secs(&self) -> u64 {
        self.miner_update_timeout_secs
    }

    pub closed spec fn initial(&self) -> Option<u64> {
        self.initial_plot_capacity_gib
    }

    pub open spec fn wf(&self) -> bool {
        ips_unique(self@)
    }

    /// A tracker with no reports.
    pub fn new(miner_update_timeout_secs: u64, initial_plot_capacity_gib: Option<u64>) -> (r: Self)
        ensures
            r.wf(),
            r@ == Seq::<MinerCapacity>::empty(),
            r.timeout_secs() == miner_update_timeout_secs,
            r.initial() == initial_plot_capacity_gib,
    {
        CapacityTracker { miners: Vec::new(), miner_update_timeout_secs, initial_plot_capacity_gib }
    }

    fn find(&self, ip: u32) -> (r: Option<usize>)
        requires
            self.wf(),
        ensures
            r is None <==> !exists|k: int| 0 <= k < self@.len() && #[trigger] self@[k].ip == ip,
            r matches Some(k) ==> k < self@.len() && (choose|j: int| 0 <= j < self@.len() && #[trigger] self@[j].ip == ip) == k,
    {
        let mut i: usize = 0;
        while i < self.miners.len()
            invariant
                self.wf(),
                i <= self@.len(),
                forall|j: int| 0 <= j < i ==> #[trigger] self@[j].ip != ip,
            decreases self.miners.len() - i,
        {
            if self.miners[i].ip == ip {
                proof {
                    let s = self@;
                    assert(s[i as int].ip == ip);
                    let c = choose|j: int| 0 <= j < s.len() && #[trigger] s[j].ip == ip;
                    if c != i {
                        assert(s[c].ip != s[i as int].ip);
                    }
                }
                return Some(i);
            }
            i = i + 1;
        }
        None
    }

    /// Capacity in GiB that `ip_address` reported, where the report is active; else 0.
    pub fn get_current_capacity(&self, ip_address: u32, now: u64) -> (r: u64)
        requires
            self.wf(),
        ensures
            r == current_capacity(self@, ip_address, now, self.timeout_secs()),
    {
        match self.find(ip_address) {
            Some(k) => {
                let m = self.miners[k];
                let elapsed = if now >= m.last_seen {
                    now - m.last_seen
                } else {
                    0
                };
                if (elapsed as u128) < self.miner_update_timeout_secs as u128 * 1000 {
                    m.capacity_gib
                } else {
                    0
                }
            },
            None => 0,
        }
    }

    /// Total capacity in GiB of the miners whose report is active, or the initial
    /// capacity where that is 0.
    pub fn get_total_capacity_gib(&self, now: u64) -> (r: u64)
        ensures
            r == total_gib(self@, now, self.timeout_secs(), self.initial()),
    {
        let mut sum: u64 = 0;
        let mut i: usize = 0;
        while i < self.miners.len()
            invariant
                i <= self@.len(),
                sum == active_sum(self@.subrange(0, i as int), now, self.timeout_secs()),
            decreases self.miners.len() - i,
        {
            let m = self.miners[i];
            assert(self@.subrange(0, i + 1).drop_last() =~= self@.subrange(0, i as int));
            let elapsed = if now >= m.last_seen {
                now - m.last_seen
            } else {
                0
            };
            if (elapsed as u128) < self.miner_update_timeout_secs as u128 * 1000 {
                if sum as u128 + m.capacity_gib as u128 > u64::MAX as u128 {
                    sum = u64::MAX;
                } else {
                    sum = sum + m.capacity_gib;
                }
            }
            i = i + 1;
        }
        assert(self@.subrange(0, self@.len() as int) =~= self@);
        if sum == 0 {
            match self.initial_plot_capacity_gib {
                Some(c) => c,
                None => 0,
            }
        } else {
            sum
        }
    }

    /// Records the capacity a miner at `endpoint` (`host:port`) reports; a report of 0
    /// keeps the capacity it had while active.
    pub fn update_connected_miners(&mut self, endpoint: &str, capacity_gib: u64, now: u64)
        requires
            old(self).wf(),
        ensures
            final(self).wf(),
            final(self).timeout_secs() == old(self).timeout_secs(),
            final(self).initial() == old(self).initial(),
            ({
                let ip = ip_key(host_part(endpoint@));
                let stored = current_capacity(old(self)@, ip, now, old(self).timeout_secs());
                final(self)@ == upsert(old(self)@, MinerCapacity {
                    ip,
                    capacity_gib: if capacity_gib > 0 { capacity_gib } else { stored },
                    last_seen: now,
                })
            }),
    {
        let host = host_of_endpoint(endpoint);
        let ip = ip_to_u32(host);
        let stored = self.get_current_capacity(ip, now);
        let to_store = if capacity_gib > 0 {
            capacity_gib
        } else {
            stored
        };
        let m = MinerCapacity { ip, capacity_gib: to_store, last_seen: now };
        match self.find(ip) {
            Some(k) => {
                self.miners.set(k, m);
                proof {
                    let s = self@;
                    assert forall|i: int, j: int| 0 <= i < s.len() && 0 <= j < s.len() && i != j implies #[trigger] s[i].ip != #[trigger] s[j].ip by {
                        if i != k && j != k {
                            assert(old(self)@[i].ip != old(self)@[j].ip);
                        } else if i == k {
                            assert(old(self)@[j].ip != old(self)@[k as int].ip);
                        } else {
                            assert(old(self)@[i].ip != old(self)@[k as int].ip);
                        }
                    }
                }
            },
            None => {
                self.miners.push(m);
                proof {
                    let s = self@;
                    assert forall|i: int, j: int| 0 <= i < s.len() && 0 <= j < s.len() && i != j implies #[trigger] s[i].ip != #[trigger] s[j].ip by {
                        if i < old(self)@.len() && j < old(self)@.len() {
                            assert(old(self)@[i].ip != old(self)@[j].ip);
                        } else if i < old(self)@.len() {
                            assert(old(self)@[i].ip != ip);
                        } else {
                            assert(old(self)@[j].ip != ip);
                        }
                    }
                }
            },
        }
    }
}

} // verus!
