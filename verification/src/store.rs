//! Model of the coordination store: conditional exclusive claims,
//! durable state snapshots, session blobs, time-series metrics, a FIFO
//! alert queue and per-proxy health, each record under a bounded TTL.
//!
//! The store is specified as a value: every operation takes the current
//! time as epoch milliseconds and its contract pins the new contents
//! exactly. Expiry is evaluated lazily, so a crashed worker's records
//! simply stop being visible once their deadline passes. The networked
//! transport that replays these operations against the real key-value
//! service lives outside the verified boundary.

use vstd::prelude::*;
use crate::kv::KvMap;
use crate::models::Alert;
use crate::state_machine::{StateTransitionError, TicketState};

verus! {

/// TTL of a persisted lifecycle snapshot: 1 hour.
pub const STATE_TTL_MS: i64 = 3_600_000;

/// Retention window of a metric series: 24 hours.
pub const METRIC_RETENTION_MS: i64 = 86_400_000;

/// Rolling expiry of a proxy-health record: 24 hours.
pub const PROXY_TTL_MS: i64 = 86_400_000;

/// An exclusive, time-bounded reservation of a contested resource.
#[derive(Clone, Debug, PartialEq, Eq)]
pub struct ClaimRecord {
    /// Opaque claimant token (the cart id of the winning worker).
    pub token: String,
    /// Instant after which the claim no longer blocks others.
    pub expires_at: i64,
}

/// A persisted lifecycle snapshot under TTL.
#[derive(Clone, Debug, PartialEq, Eq)]
pub struct StoredState {
    pub state: TicketState,
    pub expires_at: i64,
}

/// An opaque session blob under caller-chosen TTL.
#[derive(Clone, Debug, PartialEq, Eq)]
pub struct SessionRecord {
    pub value: String,
    pub expires_at: i64,
}

/// One time-series sample.
#[derive(Clone, Copy, Debug, PartialEq, Eq, Structural)]
pub struct MetricSample {
    pub timestamp_ms: i64,
    pub value: i64,
}

/// Per-proxy outcome counters with a rolling expiry.
#[derive(Clone, Copy, Debug, PartialEq, Eq, Structural)]
pub struct ProxyRecord {
    pub success_count: u64,
    pub error_count: u64,
    pub last_latency_ms: u64,
    pub last_used_ms: i64,
    pub expires_at: i64,
}

/// Health summary handed to callers. The score is the exact rational
/// `health_num / health_den`: successes over total observations, and
/// 1/1 when nothing was observed yet.
#[derive(Clone, Debug, PartialEq, Eq)]
pub struct ProxyHealth {
    pub proxy_url: String,
    pub success_count: u64,
    pub error_count: u64,
    pub last_latency_ms: u64,
    pub health_num: u64,
    pub health_den: u64,
}

/// Store-layer errors: transport trouble is retryable, a payload that
/// cannot be decoded is not.
#[derive(Clone, Debug, PartialEq, Eq)]
pub enum StateStoreError {
    /// Connectivity failure while talking to the key-value service.
    Transport(String),
    /// A value could not be encoded.
    Serialization(String),
    /// A stored value could not be decoded.
    Deserialization(String),
    /// A lifecycle-validation failure surfaced through the store.
    StateTransition(StateTransitionError),
}

/// Timestamps never decrease along a series.
pub open spec fn series_sorted(s: Seq<MetricSample>) -> bool {
    forall|i: int, j: int|
        #![trigger s[i], s[j]]
        0 <= i < j < s.len() ==> s[i].timestamp_ms <= s[j].timestamp_ms
}

/// Saturating increment of an observation counter.
pub open spec fn sat_inc(c: u64) -> u64 {
    if c < u64::MAX {
        (c + 1) as u64
    } else {
        c
    }
}

/// Saturating sum of two observation counters.
pub open spec fn sat_add(a: u64, b: u64) -> u64 {
    if a + b <= u64::MAX {
        (a + b) as u64
    } else {
        u64::MAX
    }
}

/// A health summary reports exactly the given record: its counters,
/// its last latency, and the score `success / (success + error)` as an
/// exact rational, defaulting to 1/1 without observations.
pub open spec fn health_reported(h: ProxyHealth, base: ProxyRecord) -> bool {
    &&& h.success_count == base.success_count
    &&& h.error_count == base.error_count
    &&& h.last_latency_ms == base.last_latency_ms
    &&& base.success_count + base.error_count == 0 ==> h.health_num == 1 && h.health_den == 1
    &&& base.success_count + base.error_count > 0 ==> h.health_num == base.success_count
        && h.health_den == sat_add(base.success_count, base.error_count)
}

/// The proxy record as `update_proxy_health` rewrites it from the
/// previous live record (or a fresh one), the outcome and the latency.
pub open spec fn bumped_proxy(base: ProxyRecord, success: bool, latency_ms: u64, now_ms: i64) -> ProxyRecord {
    ProxyRecord {
        success_count: if success {
            sat_inc(base.success_count)
        } else {
            base.success_count
        },
        error_count: if success {
            base.error_count
        } else {
            sat_inc(base.error_count)
        },
        last_latency_ms: latency_ms,
        last_used_ms: now_ms,
        expires_at: (now_ms + PROXY_TTL_MS) as i64,
    }
}


/// Samples of `s` with timestamps at or after `bound`, in order.
pub open spec fn retained(s: Seq<MetricSample>, bound: int) -> Seq<MetricSample> {
    s.filter(|x: MetricSample| x.timestamp_ms >= bound)
}

/// Where a sample taken at `t` lands in the ascending series `s`:
/// directly after every sample with timestamp at most `t`.
pub open spec fn insert_pos(s: Seq<MetricSample>, t: i64) -> int
    decreases s.len(),
{
    if s.len() == 0 {
        0
    } else if s[0].timestamp_ms <= t {
        1 + insert_pos(s.drop_first(), t)
    } else {
        0
    }
}

/// The series stored under `k`, or an empty series.
pub open spec fn series_of(m: Map<Seq<char>, Seq<MetricSample>>, k: Seq<char>) -> Seq<
    MetricSample,
> {
    if m.contains_key(k) {
        m[k]
    } else {
        Seq::empty()
    }
}

/// What `record_metric` leaves under the series key: samples that fell
/// out of the retention window dropped, and the new sample inserted in
/// timestamp order.
pub open spec fn recorded_series(olds: Seq<MetricSample>, value: i64, now_ms: i64) -> Seq<
    MetricSample,
> {
    let pr = retained(olds, now_ms - METRIC_RETENTION_MS);
    pr.insert(insert_pos(pr, now_ms), MetricSample { timestamp_ms: now_ms, value: value })
}

/// The view of an executable label list.
pub open spec fn label_views(s: Seq<(String, String)>) -> Seq<(Seq<char>, Seq<char>)> {
    s.map_values(|p: (String, String)| (p.0@, p.1@))
}

/// Label list rendered as `k1=v1,k2=v2`.
pub open spec fn spec_label_str(labels: Seq<(Seq<char>, Seq<char>)>) -> Seq<char>
    decreases labels.len(),
{
    if labels.len() == 0 {
        Seq::empty()
    } else if labels.len() == 1 {
        labels[0].0 + "="@ + labels[0].1
    } else {
        spec_label_str(labels.drop_last()) + ","@ + labels.last().0 + "="@ + labels.last().1
    }
}

/// The series key for a metric name and label set.
pub open spec fn spec_metric_key(name: Seq<char>, labels: Seq<(Seq<char>, Seq<char>)>) -> Seq<
    char,
> {
    name + ":"@ + spec_label_str(labels)
}

/// How `retained` grows when the underlying series grows by one.
proof fn lemma_retained_push(s: Seq<MetricSample>, bound: int, e: MetricSample)
    ensures
        retained(s.push(e), bound) == if e.timestamp_ms >= bound {
            retained(s, bound).push(e)
        } else {
            retained(s, bound)
        },
{
    reveal(Seq::filter);
    assert(s.push(e).drop_last() =~= s);
    assert(s.push(e).last() == e);
}

/// Retention keeps only in-window samples, keeps order, and never
/// exceeds the source's last timestamp.
proof fn lemma_retained_props(s: Seq<MetricSample>, bound: int)
    ensures
        retained(s, bound).len() <= s.len(),
        forall|i: int|
            0 <= i < retained(s, bound).len() ==> #[trigger] retained(s, bound)[i].timestamp_ms
                >= bound,
        series_sorted(s) ==> series_sorted(retained(s, bound)),
        series_sorted(s) && s.len() > 0 ==> forall|i: int|
            0 <= i < retained(s, bound).len() ==> #[trigger] retained(s, bound)[i].timestamp_ms
                <= s.last().timestamp_ms,
    decreases s.len(),
{
    reveal(Seq::filter);
    if s.len() == 0 {
    } else {
        let dl = s.drop_last();
        assert(series_sorted(s) ==> series_sorted(dl));
        lemma_retained_props(dl, bound);
        if series_sorted(s) && dl.len() > 0 {
            assert(dl.last().timestamp_ms <= s.last().timestamp_ms);
        }
    }
}

/// A sample present in the window survives retention.
proof fn lemma_retained_keeps(s: Seq<MetricSample>, bound: int, i: int)
    requires
        0 <= i < s.len(),
        s[i].timestamp_ms >= bound,
    ensures
        retained(s, bound).contains(s[i]),
    decreases s.len(),
{
    reveal(Seq::filter);
    if s.len() == 0 {
    } else {
        let dl = s.drop_last();
        if i < s.len() - 1 {
            lemma_retained_keeps(dl, bound, i);
            let j = choose|j: int|
                0 <= j < retained(dl, bound).len() && retained(dl, bound)[j] == dl[i];
            if s.last().timestamp_ms >= bound {
                assert(retained(s, bound)[j] == s[i]);
            } else {
                assert(retained(s, bound)[j] == s[i]);
            }
        } else {
            assert(retained(s, bound).last() == s[i]);
        }
    }
}

/// The insertion position is within bounds, after every earlier
/// timestamp and before the first later one.
proof fn lemma_insert_pos_props(s: Seq<MetricSample>, t: i64)
    ensures
        0 <= insert_pos(s, t) <= s.len(),
        forall|j: int| 0 <= j < insert_pos(s, t) ==> #[trigger] s[j].timestamp_ms <= t,
        insert_pos(s, t) < s.len() ==> s[insert_pos(s, t)].timestamp_ms > t,
    decreases s.len(),
{
    if s.len() == 0 {
    } else if s[0].timestamp_ms <= t {
        let d = s.drop_first();
        lemma_insert_pos_props(d, t);
        assert forall|j: int| 0 <= j < insert_pos(s, t) implies #[trigger] s[j].timestamp_ms <= t
            by {
            if j > 0 {
                assert(d[j - 1] == s[j]);
            }
        }
        if insert_pos(s, t) < s.len() {
            assert(d[insert_pos(s, t) - 1] == s[insert_pos(s, t)]);
        }
    } else {
    }
}

/// A scan that stops at the first later timestamp finds exactly the
/// insertion position.
proof fn lemma_insert_pos_at(s: Seq<MetricSample>, t: i64, i: int)
    requires
        0 <= i <= s.len(),
        forall|j: int| 0 <= j < i ==> #[trigger] s[j].timestamp_ms <= t,
        i < s.len() ==> s[i].timestamp_ms > t,
    ensures
        insert_pos(s, t) == i,
    decreases s.len(),
{
    if s.len() == 0 {
    } else if s[0].timestamp_ms <= t {
        assert(i >= 1);
        let d = s.drop_first();
        assert forall|j: int| 0 <= j < i - 1 implies #[trigger] d[j].timestamp_ms <= t by {
            assert(d[j] == s[j + 1]);
        }
        if i - 1 < d.len() {
            assert(d[i - 1] == s[i]);
        }
        lemma_insert_pos_at(d, t, i - 1);
    } else {
        assert(i == 0);
    }
}

/// Inserting a sample at its insertion position keeps the series in
/// ascending order.
proof fn lemma_sorted_insert(s: Seq<MetricSample>, t: i64, v: i64)
    requires
        series_sorted(s),
    ensures
        series_sorted(s.insert(insert_pos(s, t), MetricSample { timestamp_ms: t, value: v })),
{
    let pos = insert_pos(s, t);
    let x = MetricSample { timestamp_ms: t, value: v };
    lemma_insert_pos_props(s, t);
    s.insert_ensures(pos, x);
    let out = s.insert(pos, x);
    assert forall|i: int, j: int| 0 <= i < j < out.len() implies #[trigger] out[i].timestamp_ms
        <= #[trigger] out[j].timestamp_ms by {
        if i < pos && j < pos {
        } else if i < pos && j == pos {
            assert(out[i] == s[i]);
        } else if i < pos && j > pos {
            assert(out[i] == s[i] && out[j] == s[j - 1]);
        } else if i == pos && j > pos {
            assert(out[j] == s[j - 1]);
            assert(s[j - 1].timestamp_ms >= s[pos].timestamp_ms);
        } else {
            assert(out[i] == s[i - 1] && out[j] == s[j - 1]);
        }
    }
}


/// Build the series key for a metric name and label set:
/// `name:key1=val1,key2=val2`.
pub fn metric_key(name: &String, labels: &Vec<(String, String)>) -> (r: String)
    ensures
        r@ == spec_metric_key(name@, label_views(labels@)),
{
    let ghost lv = label_views(labels@);
    let mut r = name.clone();
    r.append(":");
    proof {
        assert(lv.subrange(0, 0) =~= Seq::<(Seq<char>, Seq<char>)>::empty());
        assert(r@ =~= name@ + ":"@ + spec_label_str(lv.subrange(0, 0)));
    }
    let n = labels.len();
    let mut i: usize = 0;
    while i < n
        invariant
            i <= n,
            n == labels@.len(),
            lv == label_views(labels@),
            r@ == name@ + ":"@ + spec_label_str(lv.subrange(0, i as int)),
        decreases n - i,
    {
        if i > 0 {
            r.append(",");
        }
        r.append(labels[i].0.as_str());
        r.append("=");
        r.append(labels[i].1.as_str());
        proof {
            assert(lv.subrange(0, (i + 1) as int).drop_last() =~= lv.subrange(0, i as int));
            assert(lv.subrange(0, (i + 1) as int).last() == lv[i as int]);
            assert(lv[i as int] == (labels@[i as int].0@, labels@[i as int].1@));
            assert(r@ =~= name@ + ":"@ + spec_label_str(lv.subrange(0, (i + 1) as int)));
        }
        i = i + 1;
    }
    proof {
        assert(lv.subrange(0, n as int) =~= lv);
    }
    r
}

/// Client-side model of the coordination store.
pub struct StateStore {
    claims: KvMap<ClaimRecord>,
    states: KvMap<StoredState>,
    sessions: KvMap<SessionRecord>,
    metrics: KvMap<Vec<MetricSample>>,
    alerts: Vec<Alert>,
    proxies: KvMap<ProxyRecord>,
}

impl StateStore {
    /// Representation invariant: unique keys everywhere, and every
    /// metric series is in ascending timestamp order.
    pub closed spec fn inv(&self) -> bool {
        &&& self.claims.inv()
        &&& self.states.inv()
        &&& self.sessions.inv()
        &&& self.metrics.inv()
        &&& self.proxies.inv()
        &&& forall|k: Seq<char>|
            self.metrics@.contains_key(k) ==> series_sorted(#[trigger] self.metrics@[k]@)
    }

    /// The claim table.
    pub closed spec fn claims_map(&self) -> Map<Seq<char>, ClaimRecord> {
        self.claims@
    }

    /// The persisted-snapshot table.
    pub closed spec fn states_map(&self) -> Map<Seq<char>, StoredState> {
        self.states@
    }

    /// The session table.
    pub closed spec fn sessions_map(&self) -> Map<Seq<char>, SessionRecord> {
        self.sessions@
    }

    /// The metric series per key, as sequences.
    pub closed spec fn metrics_map(&self) -> Map<Seq<char>, Seq<MetricSample>> {
        Map::new(
            |k: Seq<char>| self.metrics@.contains_key(k),
            |k: Seq<char>| self.metrics@[k]@,
        )
    }

    /// The series stored for a metric name and label set (empty when
    /// none was recorded yet).
    pub open spec fn metric_series(
        &self,
        name: Seq<char>,
        labels: Seq<(Seq<char>, Seq<char>)>,
    ) -> Seq<MetricSample> {
        series_of(self.metrics_map(), spec_metric_key(name, labels))
    }

    /// The metric table as `record_metric` leaves it.
    pub open spec fn metric_recorded(
        &self,
        name: Seq<char>,
        labels: Seq<(Seq<char>, Seq<char>)>,
        value: i64,
        now_ms: i64,
    ) -> Map<Seq<char>, Seq<MetricSample>> {
        self.metrics_map().insert(
            spec_metric_key(name, labels),
            recorded_series(self.metric_series(name, labels), value, now_ms),
        )
    }

    /// The pending alerts, oldest first.
    pub closed spec fn alerts_seq(&self) -> Seq<Alert> {
        self.alerts@
    }

    /// The proxy-health table.
    pub closed spec fn proxies_map(&self) -> Map<Seq<char>, ProxyRecord> {
        self.proxies@
    }

    /// A claim blocks others exactly while it exists and its deadline
    /// has not passed.
    pub open spec fn claim_live(&self, id: Seq<char>, now_ms: i64) -> bool {
        &&& self.claims_map().contains_key(id)
        &&& self.claims_map()[id].expires_at > now_ms
    }

    /// A persisted snapshot is visible until its TTL elapses.
    pub open spec fn state_live(&self, id: Seq<char>, now_ms: i64) -> bool {
        &&& self.states_map().contains_key(id)
        &&& self.states_map()[id].expires_at > now_ms
    }

    /// A session blob is visible until its TTL elapses.
    pub open spec fn session_live(&self, id: Seq<char>, now_ms: i64) -> bool {
        &&& self.sessions_map().contains_key(id)
        &&& self.sessions_map()[id].expires_at > now_ms
    }

    /// A proxy record counts until its rolling expiry elapses.
    pub open spec fn proxy_live(&self, id: Seq<char>, now_ms: i64) -> bool {
        &&& self.proxies_map().contains_key(id)
        &&& self.proxies_map()[id].expires_at > now_ms
    }

    /// The proxy record that an operation at `now_ms` starts from: the
    /// live stored record, or a zeroed one.
    pub open spec fn proxy_base(&self, id: Seq<char>, now_ms: i64) -> ProxyRecord {
        if self.proxy_live(id, now_ms) {
            self.proxies_map()[id]
        } else {
            ProxyRecord {
                success_count: 0,
                error_count: 0,
                last_latency_ms: 0,
                last_used_ms: 0,
                expires_at: 0,
            }
        }
    }

    /// Create an empty store model.
    pub fn new() -> (r: Self)
        ensures
            r.inv(),
            r.claims_map() == Map::<Seq<char>, ClaimRecord>::empty(),
            r.states_map() == Map::<Seq<char>, StoredState>::empty(),
            r.sessions_map() == Map::<Seq<char>, SessionRecord>::empty(),
            r.metrics_map() == Map::<Seq<char>, Seq<MetricSample>>::empty(),
            r.alerts_seq() == Seq::<Alert>::empty(),
            r.proxies_map() == Map::<Seq<char>, ProxyRecord>::empty(),
    {
        let r = StateStore {
            claims: KvMap::new(),
            states: KvMap::new(),
            sessions: KvMap::new(),
            metrics: KvMap::new(),
            alerts: Vec::new(),
            proxies: KvMap::new(),
        };
        proof {
            assert(r.metrics_map() =~= Map::<Seq<char>, Seq<MetricSample>>::empty());
        }
        r
    }

    /// Try to claim the contested resource `event_id` for the claimant
    /// token `cart_id`: the claim is created only if no live claim
    /// exists, and expires `ttl_secs` later. Returns whether this call
    /// won. This conditional create is the sole mutual-exclusion
    /// primitive: of any set of callers racing the same id, the first
    /// to run wins and every later one loses until release or expiry.
    pub fn try_claim_cart(
        &mut self,
        event_id: &String,
        cart_id: &String,
        ttl_secs: u64,
        now_ms: i64,
    ) -> (r: bool)
        requires
            old(self).inv(),
            0 <= now_ms,
            now_ms + ttl_secs * 1000 <= i64::MAX,
        ensures
            final(self).inv(),
            r == !old(self).claim_live(event_id@, now_ms),
            r ==> final(self).claims_map() == old(self).claims_map().insert(
                event_id@,
                (ClaimRecord { token: *cart_id, expires_at: (now_ms + ttl_secs * 1000) as i64 }),
            ),
            !r ==> final(self).claims_map() == old(self).claims_map(),
            final(self).states_map() == old(self).states_map(),
            final(self).sessions_map() == old(self).sessions_map(),
            final(self).metrics_map() == old(self).metrics_map(),
            final(self).alerts_seq() == old(self).alerts_seq(),
            final(self).proxies_map() == old(self).proxies_map(),
    {
        let live = match self.claims.get(event_id) {
            Some(c) => c.expires_at > now_ms,
            None => false,
        };
        if live {
            false
        } else {
            let expires_at = now_ms + (ttl_secs as i64) * 1000;
            self.claims.insert(
                event_id.clone(),
                ClaimRecord { token: cart_id.clone(), expires_at },
            );
            true
        }
    }

    /// Unconditionally delete the claim record for `event_id`.
    pub fn release_claim(&mut self, event_id: &String)
        requires
            old(self).inv(),
        ensures
            final(self).inv(),
            final(self).claims_map() == old(self).claims_map().remove(event_id@),
            final(self).states_map() == old(self).states_map(),
            final(self).sessions_map() == old(self).sessions_map(),
            final(self).metrics_map() == old(self).metrics_map(),
            final(self).alerts_seq() == old(self).alerts_seq(),
            final(self).proxies_map() == old(self).proxies_map(),
    {
        self.claims.remove(event_id);
    }

    /// The live claim for `event_id`, if any.
    pub fn get_claim(&self, event_id: &String, now_ms: i64) -> (r: Option<&ClaimRecord>)
        requires
            self.inv(),
        ensures
            self.claim_live(event_id@, now_ms) ==> (r matches Some(c)
                && *c == self.claims_map()[event_id@]),
            !self.claim_live(event_id@, now_ms) ==> r is None,
    {
        match self.claims.get(event_id) {
            Some(c) => {
                if c.expires_at > now_ms {
                    Some(c)
                } else {
                    None
                }
            },
            None => None,
        }
    }

    /// Persist a lifecycle snapshot for `target_id` under the 1-hour
    /// TTL, unconditionally overwriting any previous snapshot.
    pub fn save_state(&mut self, target_id: &String, state: TicketState, now_ms: i64)
        requires
            old(self).inv(),
            0 <= now_ms,
            now_ms + STATE_TTL_MS <= i64::MAX,
        ensures
            final(self).inv(),
            final(self).states_map() == old(self).states_map().insert(
                target_id@,
                (StoredState { state: state, expires_at: (now_ms + STATE_TTL_MS) as i64 }),
            ),
            final(self).claims_map() == old(self).claims_map(),
            final(self).sessions_map() == old(self).sessions_map(),
            final(self).metrics_map() == old(self).metrics_map(),
            final(self).alerts_seq() == old(self).alerts_seq(),
            final(self).proxies_map() == old(self).proxies_map(),
    {
        let expires_at = now_ms + STATE_TTL_MS;
        self.states.insert(target_id.clone(), StoredState { state, expires_at });
    }

    /// Load the persisted snapshot for `target_id`. Absence — never
    /// stored, or stored longer than the TTL ago — is `None`, not an
    /// error.
    pub fn load_state(&self, target_id: &String, now_ms: i64) -> (r: Option<&TicketState>)
        requires
            self.inv(),
        ensures
            self.state_live(target_id@, now_ms) ==> (r matches Some(s)
                && *s == self.states_map()[target_id@].state),
            !self.state_live(target_id@, now_ms) ==> r is None,
    {
        match self.states.get(target_id) {
            Some(rec) => {
                if rec.expires_at > now_ms {
                    Some(&rec.state)
                } else {
                    None
                }
            },
            None => None,
        }
    }

    /// Drop the persisted snapshot for `target_id`, if any.
    pub fn delete_state(&mut self, target_id: &String)
        requires
            old(self).inv(),
        ensures
            final(self).inv(),
            final(self).states_map() == old(self).states_map().remove(target_id@),
            final(self).claims_map() == old(self).claims_map(),
            final(self).sessions_map() == old(self).sessions_map(),
            final(self).metrics_map() == old(self).metrics_map(),
            final(self).alerts_seq() == old(self).alerts_seq(),
            final(self).proxies_map() == old(self).proxies_map(),
    {
        self.states.remove(target_id);
    }

    /// Save a session blob (cookies) for reuse across restarts, under a
    /// caller-chosen TTL.
    pub fn save_session(&mut self, session_id: &String, cookies: &String, ttl_secs: u64, now_ms: i64)
        requires
            old(self).inv(),
            0 <= now_ms,
            now_ms + ttl_secs * 1000 <= i64::MAX,
        ensures
            final(self).inv(),
            final(self).sessions_map() == old(self).sessions_map().insert(
                session_id@,
                (SessionRecord { value: *cookies, expires_at: (now_ms + ttl_secs * 1000) as i64 }),
            ),
            final(self).claims_map() == old(self).claims_map(),
            final(self).states_map() == old(self).states_map(),
            final(self).metrics_map() == old(self).metrics_map(),
            final(self).alerts_seq() == old(self).alerts_seq(),
            final(self).proxies_map() == old(self).proxies_map(),
    {
        let expires_at = now_ms + (ttl_secs as i64) * 1000;
        self.sessions.insert(
            session_id.clone(),
            SessionRecord { value: cookies.clone(), expires_at },
        );
    }

    /// Load a live session blob.
    pub fn load_session(&self, session_id: &String, now_ms: i64) -> (r: Option<&String>)
        requires
            self.inv(),
        ensures
            self.session_live(session_id@, now_ms) ==> (r matches Some(v) && *v
                == self.sessions_map()[session_id@].value),
            !self.session_live(session_id@, now_ms) ==> r is None,
    {
        match self.sessions.get(session_id) {
            Some(rec) => {
                if rec.expires_at > now_ms {
                    Some(&rec.value)
                } else {
                    None
                }
            },
            None => None,
        }
    }

    /// Push an alert onto the FIFO notification queue.
    pub fn queue_alert(&mut self, alert: Alert)
        requires
            old(self).inv(),
        ensures
            final(self).inv(),
            final(self).alerts_seq() == old(self).alerts_seq().push(alert),
            final(self).claims_map() == old(self).claims_map(),
            final(self).states_map() == old(self).states_map(),
            final(self).sessions_map() == old(self).sessions_map(),
            final(self).metrics_map() == old(self).metrics_map(),
            final(self).proxies_map() == old(self).proxies_map(),
    {
        self.alerts.push(alert);
    }

    /// Pop the oldest alert, if any: the queue is strictly first in,
    /// first out.
    pub fn dequeue_alert(&mut self) -> (r: Option<Alert>)
        requires
            old(self).inv(),
        ensures
            final(self).inv(),
            old(self).alerts_seq().len() == 0 ==> r is None
                && final(self).alerts_seq() == old(self).alerts_seq(),
            old(self).alerts_seq().len() > 0 ==> (r matches Some(a)
                && a == old(self).alerts_seq()[0]
                && final(self).alerts_seq() == old(self).alerts_seq().drop_first()),
            final(self).claims_map() == old(self).claims_map(),
            final(self).states_map() == old(self).states_map(),
            final(self).sessions_map() == old(self).sessions_map(),
            final(self).metrics_map() == old(self).metrics_map(),
            final(self).proxies_map() == old(self).proxies_map(),
    {
        if self.alerts.len() == 0 {
            None
        } else {
            let a = self.alerts.remove(0);
            proof {
                assert(self.alerts@ =~= old(self).alerts@.drop_first());
            }
            Some(a)
        }
    }


    /// Append a timestamped sample to the series keyed by the metric
    /// name and label set, keeping the series in timestamp order, and
    /// drop every sample that fell out of the 24-hour retention window.
    pub fn record_metric(
        &mut self,
        name: &String,
        value: i64,
        labels: &Vec<(String, String)>,
        now_ms: i64,
    )
        requires
            old(self).inv(),
            0 <= now_ms,
        ensures
            final(self).inv(),
            final(self).metrics_map() == old(self).metric_recorded(name@, label_views(labels@), value, now_ms),
            final(self).claims_map() == old(self).claims_map(),
            final(self).states_map() == old(self).states_map(),
            final(self).sessions_map() == old(self).sessions_map(),
            final(self).alerts_seq() == old(self).alerts_seq(),
            final(self).proxies_map() == old(self).proxies_map(),
    {
        let ghost k = spec_metric_key(name@, label_views(labels@));
        let key = metric_key(name, labels);
        let series: Vec<MetricSample> = match self.metrics.take(&key) {
            Some(v) => v,
            None => Vec::new(),
        };
        let ghost olds = old(self).metric_series(name@, label_views(labels@));
        proof {
            assert(series@ == olds);
        }
        let cutoff = now_ms - METRIC_RETENTION_MS;
        let n = series.len();
        let mut kept: Vec<MetricSample> = Vec::new();
        let mut i: usize = 0;
        proof {
            assert(series@.subrange(0, 0) =~= Seq::<MetricSample>::empty());
            reveal(Seq::filter);
        }
        while i < n
            invariant
                i <= n,
                n == series@.len(),
                kept@ == (retained(series@.subrange(0, i as int), cutoff as int)),
            decreases n - i,
        {
            proof {
                assert(series@.subrange(0, (i + 1) as int) =~= series@.subrange(
                    0,
                    i as int,
                ).push(series@[i as int]));
                lemma_retained_push(series@.subrange(0, i as int), cutoff as int, series@[i as int]);
            }
            if series[i].timestamp_ms >= cutoff {
                kept.push(series[i]);
            }
            i = i + 1;
        }
        proof {
            assert(series@.subrange(0, n as int) =~= series@);
        }
        let ghost pr = retained(olds, cutoff as int);
        let klen = kept.len();
        let mut pos: usize = 0;
        while pos < klen && kept[pos].timestamp_ms <= now_ms
            invariant
                pos <= klen,
                klen == kept@.len(),
                forall|j: int| 0 <= j < pos ==> #[trigger] kept@[j].timestamp_ms <= now_ms,
            decreases klen - pos,
        {
            pos = pos + 1;
        }
        proof {
            lemma_insert_pos_at(kept@, now_ms, pos as int);
        }
        kept.insert(pos, MetricSample { timestamp_ms: now_ms, value });
        proof {
            assert(kept@ == recorded_series(olds, value, now_ms));
            if old(self).inv() {
                if series_sorted(olds) {
                    lemma_retained_props(olds, cutoff as int);
                    lemma_sorted_insert(pr, now_ms, value);
                }
            }
            assert(series_sorted(olds)) by {
                if old(self).metrics_map().contains_key(k) {
                } else {
                    assert(olds =~= Seq::<MetricSample>::empty());
                }
            }
        }
        self.metrics.insert(key, kept);
        proof {
            assert(final(self).metrics_map() =~= old(self).metrics_map().insert(
                k,
                recorded_series(olds, value, now_ms),
            ));
        }
    }

    /// Samples of the series keyed by the metric name and label set
    /// with timestamp at or after `since_ms`, in ascending order.
    /// Samples pruned by the retention window are gone for good: no
    /// query returns them again.
    pub fn get_metrics(&self, name: &String, labels: &Vec<(String, String)>, since_ms: i64) -> (r: Vec<MetricSample>)
        requires
            self.inv(),
        ensures
            r@ == (retained(self.metric_series(name@, label_views(labels@)), since_ms as int)),
            series_sorted(r@),
            forall|i: int| 0 <= i < r@.len() ==> #[trigger] r@[i].timestamp_ms >= since_ms,
    {
        let ghost k = spec_metric_key(name@, label_views(labels@));
        let key = metric_key(name, labels);
        let mut out: Vec<MetricSample> = Vec::new();
        proof {
            reveal(Seq::filter);
        }
        let got = self.metrics.get(&key);
        if got.is_none() {
            proof {
                assert(series_of(self.metrics_map(), k) =~= Seq::<MetricSample>::empty());
                lemma_retained_props(series_of(self.metrics_map(), k), since_ms as int);
            }
            return out;
        }
        let series = got.unwrap();
        let n = series.len();
        let mut i: usize = 0;
        proof {
            assert(series@.subrange(0, 0) =~= Seq::<MetricSample>::empty());
        }
        while i < n
            invariant
                i <= n,
                n == series@.len(),
                out@ == (retained(series@.subrange(0, i as int), since_ms as int)),
            decreases n - i,
        {
            proof {
                assert(series@.subrange(0, (i + 1) as int) =~= series@.subrange(
                    0,
                    i as int,
                ).push(series@[i as int]));
                lemma_retained_push(
                    series@.subrange(0, i as int),
                    since_ms as int,
                    series@[i as int],
                );
            }
            if series[i].timestamp_ms >= since_ms {
                out.push(series[i]);
            }
            i = i + 1;
        }
        proof {
            assert(series@.subrange(0, n as int) =~= series@);
            lemma_retained_props(series@, since_ms as int);
        }
        out
    }

    /// Record one proxy request outcome: bump the matching counter of
    /// the live record (or of a fresh one once the old record expired),
    /// note latency and last use, and push the rolling expiry out by
    /// 24 hours.
    pub fn update_proxy_health(
        &mut self,
        proxy_url: &String,
        success: bool,
        latency_ms: u64,
        now_ms: i64,
    )
        requires
            old(self).inv(),
            0 <= now_ms,
            now_ms + PROXY_TTL_MS <= i64::MAX,
        ensures
            final(self).inv(),
            final(self).proxies_map() == old(self).proxies_map().insert(
                proxy_url@,
                bumped_proxy(old(self).proxy_base(proxy_url@, now_ms), success, latency_ms, now_ms),
            ),
            final(self).claims_map() == old(self).claims_map(),
            final(self).states_map() == old(self).states_map(),
            final(self).sessions_map() == old(self).sessions_map(),
            final(self).metrics_map() == old(self).metrics_map(),
            final(self).alerts_seq() == old(self).alerts_seq(),
    {
        let base = match self.proxies.get(proxy_url) {
            Some(rec) => {
                if rec.expires_at > now_ms {
                    *rec
                } else {
                    ProxyRecord {
                        success_count: 0,
                        error_count: 0,
                        last_latency_ms: 0,
                        last_used_ms: 0,
                        expires_at: 0,
                    }
                }
            },
            None => ProxyRecord {
                success_count: 0,
                error_count: 0,
                last_latency_ms: 0,
                last_used_ms: 0,
                expires_at: 0,
            },
        };
        let success_count = if success {
            if base.success_count < u64::MAX {
                base.success_count + 1
            } else {
                base.success_count
            }
        } else {
            base.success_count
        };
        let error_count = if success {
            base.error_count
        } else {
            if base.error_count < u64::MAX {
                base.error_count + 1
            } else {
                base.error_count
            }
        };
        self.proxies.insert(
            proxy_url.clone(),
            ProxyRecord {
                success_count,
                error_count,
                last_latency_ms: latency_ms,
                last_used_ms: now_ms,
                expires_at: now_ms + PROXY_TTL_MS,
            },
        );
    }

    /// Every proxy url with a record, expired or not: no duplicates,
    /// and together they cover exactly the proxy table's domain.
    pub fn proxy_urls(&self) -> (r: Vec<String>)
        requires
            self.inv(),
        ensures
            forall|i: int|
                0 <= i < r@.len() ==> self.proxies_map().contains_key(#[trigger] r@[i]@),
            forall|i: int, j: int|
                #![trigger r@[i]@, r@[j]@]
                0 <= i < j < r@.len() ==> r@[i]@ != r@[j]@,
            forall|q: Seq<char>|
                self.proxies_map().contains_key(q) ==> exists|i: int|
                    0 <= i < r@.len() && #[trigger] r@[i]@ == q,
    {
        self.proxies.keys()
    }

    /// Health summary for one proxy. With no live observations the
    /// score defaults to 1/1; otherwise it is exactly
    /// `success_count / (success_count + error_count)`.
    pub fn get_proxy_health(&self, proxy_url: &String, now_ms: i64) -> (r: ProxyHealth)
        requires
            self.inv(),
        ensures
            r.proxy_url@ == proxy_url@,
            health_reported(r, self.proxy_base(proxy_url@, now_ms)),
    {
        let base = match self.proxies.get(proxy_url) {
            Some(rec) => {
                if rec.expires_at > now_ms {
                    *rec
                } else {
                    ProxyRecord {
                        success_count: 0,
                        error_count: 0,
                        last_latency_ms: 0,
                        last_used_ms: 0,
                        expires_at: 0,
                    }
                }
            },
            None => ProxyRecord {
                success_count: 0,
                error_count: 0,
                last_latency_ms: 0,
                last_used_ms: 0,
                expires_at: 0,
            },
        };
        let total = if base.error_count <= u64::MAX - base.success_count {
            base.success_count + base.error_count
        } else {
            u64::MAX
        };
        let (health_num, health_den) = if base.success_count == 0 && base.error_count == 0 {
            (1u64, 1u64)
        } else {
            (base.success_count, total)
        };
        ProxyHealth {
            proxy_url: proxy_url.clone(),
            success_count: base.success_count,
            error_count: base.error_count,
            last_latency_ms: base.last_latency_ms,
            health_num,
            health_den,
        }
    }
}


/// Law: a granted claim blocks every other claim attempt for the same
/// resource id until its TTL elapses. `mid` is any store reached from
/// `pre` by a winning `try_claim_cart(id, token, ttl_secs)` at `now1`;
/// at any `now2` before the deadline the claim is still live, so by the
/// contract of `try_claim_cart` a second attempt returns `false` and
/// changes nothing. Of N callers racing the same id, the one
/// linearized first wins and every later one loses: at most one claim
/// per resource id at any instant.
pub proof fn lemma_claim_blocks(
    pre: StateStore,
    mid: StateStore,
    id: Seq<char>,
    token: String,
    ttl_secs: u64,
    now1: i64,
    now2: i64,
)
    requires
        !pre.claim_live(id, now1),
        mid.claims_map() == pre.claims_map().insert(
            id,
            (ClaimRecord { token: token, expires_at: (now1 + ttl_secs * 1000) as i64 }),
        ),
        0 <= now1,
        now1 + ttl_secs * 1000 <= i64::MAX,
        now2 < now1 + ttl_secs * 1000,
    ensures
        mid.claim_live(id, now2),
{
}

/// Law: releasing a claim unblocks the resource id at once: after
/// `release_claim` no claim is live, so the next `try_claim_cart`
/// for the id returns `true`.
pub proof fn lemma_release_unblocks(mid: StateStore, rel: StateStore, id: Seq<char>, now: i64)
    requires
        rel.claims_map() == mid.claims_map().remove(id),
    ensures
        !rel.claim_live(id, now),
{
}

/// Law: once a claim's TTL has elapsed, the claim no longer blocks: at
/// any `now2` at or past the deadline `try_claim_cart` for the id
/// returns `true` again.
pub proof fn lemma_expiry_unblocks(mid: StateStore, id: Seq<char>, now2: i64)
    requires
        mid.claims_map().contains_key(id) ==> mid.claims_map()[id].expires_at <= now2,
    ensures
        !mid.claim_live(id, now2),
{
}

/// Law (round trip): `saved` is any store reached by
/// `save_state(id, state)` at `saved_at`. Until the 1-hour TTL elapses
/// the snapshot is live and holds exactly the saved state, so by the
/// contract of `load_state` an immediate (or any in-window) load
/// returns the identical state; at or past the deadline the snapshot is
/// absent and `load_state` returns `None`.
pub proof fn lemma_state_round_trip(
    pre: StateStore,
    saved: StateStore,
    id: Seq<char>,
    state: TicketState,
    saved_at: i64,
    now2: i64,
)
    requires
        0 <= saved_at,
        saved_at + STATE_TTL_MS <= i64::MAX,
        saved.states_map() == pre.states_map().insert(
            id,
            (StoredState { state: state, expires_at: (saved_at + STATE_TTL_MS) as i64 }),
        ),
    ensures
        now2 < saved_at + STATE_TTL_MS ==> saved.state_live(id, now2) && saved.states_map()[
            id
        ].state == state,
        now2 >= saved_at + STATE_TTL_MS ==> !saved.state_live(id, now2),
{
}

/// Law (bounded retention): right after `record_metric` at `now_ms`,
/// every sample of the updated series lies within the 24-hour window.
/// A sample older than that was pruned by the write and, the series key
/// holding nothing else, can appear in no later query.
pub proof fn lemma_recorded_window(olds: Seq<MetricSample>, value: i64, now_ms: i64)
    ensures
        forall|i: int|
            0 <= i < recorded_series(olds, value, now_ms).len() ==> #[trigger] recorded_series(
                olds,
                value,
                now_ms,
            )[i].timestamp_ms >= now_ms - METRIC_RETENTION_MS,
{
    let cutoff = now_ms - METRIC_RETENTION_MS;
    let pr = retained(olds, cutoff);
    let x = MetricSample { timestamp_ms: now_ms, value: value };
    let pos = insert_pos(pr, now_ms);
    lemma_retained_props(olds, cutoff);
    lemma_insert_pos_props(pr, now_ms);
    pr.insert_ensures(pos, x);
    let out = recorded_series(olds, value, now_ms);
    assert forall|i: int| 0 <= i < out.len() implies #[trigger] out[i].timestamp_ms >= cutoff by {
        if i < pos {
            assert(out[i] == pr[i]);
        } else if i == pos {
            assert(out[i] == x);
        } else {
            assert(out[i] == pr[i - 1]);
        }
    }
}

/// Law (recorded samples are visible): the sample just written by
/// `record_metric` is among the results of every later `get_metrics`
/// whose `since` bound does not exceed its timestamp.
pub proof fn lemma_recorded_visible(olds: Seq<MetricSample>, value: i64, now_ms: i64, since: i64)
    requires
        since <= now_ms,
    ensures
        retained(recorded_series(olds, value, now_ms), since as int).contains(
            (MetricSample { timestamp_ms: now_ms, value: value }),
        ),
{
    let cutoff = now_ms - METRIC_RETENTION_MS;
    let pr = retained(olds, cutoff);
    let x = MetricSample { timestamp_ms: now_ms, value: value };
    let pos = insert_pos(pr, now_ms);
    lemma_insert_pos_props(pr, now_ms);
    pr.insert_ensures(pos, x);
    assert(recorded_series(olds, value, now_ms)[pos] == x);
    lemma_retained_keeps(recorded_series(olds, value, now_ms), since as int, pos);
}

} // verus!
