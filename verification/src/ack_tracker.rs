//! Pending acknowledgements for reliable chat delivery.
//!
//! A sent chat message is registered with its id and its packet bytes. If no
//! acknowledgement arrives within the timeout the message is handed back for
//! retransmission; after the maximum number of retries it is reported failed
//! and forgotten. Time is a nanosecond count on a monotonic clock that starts
//! when the tracker is made.

use vstd::prelude::*;

use std::time::Instant;

use crate::clock::{instant_now, nanos_since, TimeSpan};

verus! {

/// Tracking info for a pending message
#[derive(Debug, Clone)]
struct PendingMessage {
    message_id: [u8; 16],
    /// Raw packet bytes for retransmission
    packet_bytes: Vec<u8>,
    /// When the message was last sent
    last_sent: u128,
    /// Number of times this message has been retransmitted
    retry_count: u32,
    /// When the message was originally sent
    created_at: u128,
}

/// The content of a pending entry.
pub ghost struct PendingModel {
    pub message_id: Seq<u8>,
    pub packet_bytes: Seq<u8>,
    pub last_sent: u128,
    pub retry_count: u32,
    pub created_at: u128,
}

impl PendingMessage {
    closed spec fn model(&self) -> PendingModel {
        PendingModel {
            message_id: self.message_id@,
            packet_bytes: self.packet_bytes@,
            last_sent: self.last_sent,
            retry_count: self.retry_count,
            created_at: self.created_at,
        }
    }
}

/// Result of checking pending messages
#[derive(Debug)]
pub enum AckStatus {
    /// Message was acknowledged successfully
    Acknowledged,
    /// Message needs to be retransmitted (returns packet bytes)
    NeedsRetransmit(Vec<u8>),
    /// Message exceeded max retries — delivery failed
    Failed { message_id: [u8; 16] },
    /// Message is still within timeout, waiting for ACK
    Waiting,
}

/// The content of a status.
pub ghost enum StatusModel {
    Acknowledged,
    NeedsRetransmit(Seq<u8>),
    Failed(Seq<u8>),
    Waiting,
}

impl View for AckStatus {
    type V = StatusModel;

    open spec fn view(&self) -> StatusModel {
        match self {
            AckStatus::Acknowledged => StatusModel::Acknowledged,
            AckStatus::NeedsRetransmit(b) => StatusModel::NeedsRetransmit(b@),
            AckStatus::Failed { message_id } => StatusModel::Failed(message_id@),
            AckStatus::Waiting => StatusModel::Waiting,
        }
    }
}

/// Tracks pending acknowledgements for reliable message delivery.
pub struct AckTracker {
    /// Messages awaiting acknowledgement, at most one per id (a `Vec` keyed
    /// by id: vstd has no hash-table key model for `[u8; 16]`)
    pending: Vec<PendingMessage>,
    /// Timeout before retransmission, in nanoseconds
    timeout: u128,
    /// Maximum number of retransmission attempts
    max_retries: u32,
    /// Origin of the tracker's clock
    clock: Instant,
}

/// The abstract state of a tracker.
pub ghost struct AckModel {
    pub pending: Seq<PendingModel>,
    pub timeout: u128,
    pub max_retries: u32,
}

/// The ids of a pending list, in order.
pub open spec fn ids(p: Seq<PendingModel>) -> Seq<Seq<u8>> {
    p.map_values(|e: PendingModel| e.message_id)
}

/// Whether `id` is pending.
pub open spec fn pending_has(p: Seq<PendingModel>, id: Seq<u8>) -> bool {
    exists|i: int| 0 <= i < p.len() && #[trigger] p[i].message_id == id
}

/// The invariant of a tracker: no id twice, and no entry retried more than allowed.
pub open spec fn ack_wf(m: AckModel) -> bool {
    &&& forall|i: int, j: int|
        0 <= i < j < m.pending.len() ==> #[trigger] m.pending[i].message_id
            != #[trigger] m.pending[j].message_id
    &&& forall|i: int| 0 <= i < m.pending.len() ==> #[trigger] m.pending[i].retry_count <= m.max_retries
    &&& forall|i: int| 0 <= i < m.pending.len() ==> (#[trigger] m.pending[i]).message_id.len() == 16
}

/// Whether an entry sent last at `last` has waited `timeout` by `now`
/// (the elapsed time saturates at zero).
pub open spec fn timed_out(last: u128, now: u128, timeout: u128) -> bool {
    (if now >= last { now - last } else { 0 }) >= timeout
}

/// Checking one entry at time `now`: the status it yields, if any, and the
/// entry that stays, if any.
pub open spec fn check_entry(e: PendingModel, now: u128, timeout: u128, max_retries: u32) -> (
    Option<StatusModel>,
    Option<PendingModel>,
) {
    if !timed_out(e.last_sent, now, timeout) {
        (None, Some(e))
    } else if e.retry_count >= max_retries {
        (Some(StatusModel::Failed(e.message_id)), None)
    } else {
        (
            Some(StatusModel::NeedsRetransmit(e.packet_bytes)),
            Some(PendingModel { last_sent: now, retry_count: (e.retry_count + 1) as u32, ..e }),
        )
    }
}

/// Checking the first `k` entries: the statuses, and the entries that stay.
pub open spec fn check_prefix(p: Seq<PendingModel>, k: nat, now: u128, timeout: u128, max_retries: u32) -> (
    Seq<StatusModel>,
    Seq<PendingModel>,
)
    decreases k,
{
    if k == 0 {
        (Seq::empty(), Seq::empty())
    } else {
        let (st, kept) = check_prefix(p, (k - 1) as nat, now, timeout, max_retries);
        let (s, e) = check_entry(p[k - 1], now, timeout, max_retries);
        (
            match s {
                Some(x) => st.push(x),
                None => st,
            },
            match e {
                Some(x) => kept.push(x),
                None => kept,
            },
        )
    }
}

/// Checking every pending entry at time `now`.
pub open spec fn check_all(m: AckModel, now: u128) -> (Seq<StatusModel>, Seq<PendingModel>) {
    check_prefix(m.pending, m.pending.len(), now, m.timeout, m.max_retries)
}

/// `after` is `before` with the message registered at `now`: replaced in
/// place when its id was pending, appended otherwise.
#[verifier::opaque]
pub open spec fn registered(
    before: Seq<PendingModel>,
    id: Seq<u8>,
    bytes: Seq<u8>,
    now: u128,
    after: Seq<PendingModel>,
) -> bool {
    let e = PendingModel {
        message_id: id,
        packet_bytes: bytes,
        last_sent: now,
        retry_count: 0,
        created_at: now,
    };
    if pending_has(before, id) {
        exists|i: int|
            0 <= i < before.len() && #[trigger] before[i].message_id == id && after == before.update(
                i,
                e,
            )
    } else {
        after == before.push(e)
    }
}

/// The statuses and the pending list after a check at time `now`.
pub open spec fn checked_at(m: AckModel, now: u128, st: Seq<StatusModel>, after: Seq<PendingModel>) -> bool {
    st == check_all(m, now).0 && after == check_all(m, now).1
}

/// The models of a status list.
pub open spec fn statuses(v: Seq<AckStatus>) -> Seq<StatusModel> {
    v.map_values(|s: AckStatus| s@)
}

impl View for AckTracker {
    type V = AckModel;

    closed spec fn view(&self) -> AckModel {
        AckModel {
            pending: self.pending@.map_values(|e: PendingMessage| e.model()),
            timeout: self.timeout,
            max_retries: self.max_retries,
        }
    }
}

impl AckTracker {
    /// The tracker's invariant holds.
    pub closed spec fn wf(&self) -> bool {
        ack_wf(self@)
    }

    /// Create a new ACK tracker with default settings (2s timeout, 3 retries)
    pub fn new() -> (r: Self)
        ensures
            r.wf(),
            r@.pending == Seq::<PendingModel>::empty(),
            r@.timeout == 2_000_000_000,
            r@.max_retries == 3,
    {
        let r = Self { pending: Vec::new(), timeout: 2_000_000_000, max_retries: 3, clock: instant_now() };
        assert(r@.pending =~= Seq::<PendingModel>::empty());
        r
    }

    /// Create with custom timeout and retry count
    pub fn with_config(timeout: TimeSpan, max_retries: u32) -> (r: Self)
        ensures
            r.wf(),
            r@.pending == Seq::<PendingModel>::empty(),
            r@.timeout == timeout.nanos,
            r@.max_retries == max_retries,
    {
        let r = Self { pending: Vec::new(), timeout: timeout.nanos, max_retries, clock: instant_now() };
        assert(r@.pending =~= Seq::<PendingModel>::empty());
        r
    }

    fn position(&self, message_id: &[u8; 16]) -> (r: Option<usize>)
        requires
            self.wf(),
        ensures
            r matches Some(i) ==> i < self@.pending.len() && self@.pending[i as int].message_id
                == message_id@,
            r is None ==> !pending_has(self@.pending, message_id@),
    {
        let mut i: usize = 0;
        while i < self.pending.len()
            invariant
                i <= self.pending@.len(),
                self@.pending.len() == self.pending@.len(),
                forall|j: int| 0 <= j < i ==> #[trigger] self@.pending[j].message_id != message_id@,
            decreases self.pending@.len() - i,
        {
            if ids_equal(&self.pending[i].message_id, message_id) {
                return Some(i);
            }
            assert(self@.pending[i as int] == self.pending@[i as int].model());
            i = i + 1;
        }
        None
    }

    /// Register a message as pending ACK, sent at time `now` (nanoseconds on
    /// the tracker's clock). A message already pending under the same id is
    /// replaced in place.
    pub fn register_at(&mut self, message_id: [u8; 16], packet_bytes: Vec<u8>, now: u128)
        requires
            old(self).wf(),
        ensures
            final(self).wf(),
            final(self)@.timeout == old(self)@.timeout,
            final(self)@.max_retries == old(self)@.max_retries,
            registered(old(self)@.pending, message_id@, packet_bytes@, now, final(self)@.pending),
    {
        reveal(registered);
        let entry = PendingMessage {
            message_id,
            packet_bytes,
            last_sent: now,
            retry_count: 0,
            created_at: now,
        };
        let ghost old_view = self@;
        match self.position(&message_id) {
            Some(i) => {
                self.pending.set(i, entry);
                proof {
                    assert(self@.pending =~= old_view.pending.update(i as int, entry.model()));
                }
            },
            None => {
                self.pending.push(entry);
                proof {
                    assert(self@.pending =~= old_view.pending.push(entry.model()));
                    assert forall|j: int| 0 <= j < old_view.pending.len() implies #[trigger] old_view.pending[j].message_id
                        != message_id@ by {}
                }
            },
        }
    }

    /// Register a message as pending ACK, sent now.
    pub fn register(&mut self, message_id: [u8; 16], packet_bytes: Vec<u8>)
        requires
            old(self).wf(),
        ensures
            final(self).wf(),
            final(self)@.timeout == old(self)@.timeout,
            final(self)@.max_retries == old(self)@.max_retries,
            exists|now: u128|
                #[trigger] registered(
                    old(self)@.pending,
                    message_id@,
                    packet_bytes@,
                    now,
                    final(self)@.pending,
                ),
    {
        let now = nanos_since(&self.clock);
        let ghost bytes = packet_bytes@;
        self.register_at(message_id, packet_bytes, now);
        assert(registered(old(self)@.pending, message_id@, bytes, now, self@.pending));
    }

    /// Mark a message as acknowledged. Returns true if the message was pending.
    pub fn acknowledge(&mut self, message_id: &[u8; 16]) -> (r: bool)
        requires
            old(self).wf(),
        ensures
            final(self).wf(),
            r == pending_has(old(self)@.pending, message_id@),
            final(self)@.timeout == old(self)@.timeout,
            final(self)@.max_retries == old(self)@.max_retries,
            r ==> exists|i: int|
                0 <= i < old(self)@.pending.len() && old(self)@.pending[i].message_id
                    == message_id@ && final(self)@.pending == old(self)@.pending.remove(i),
            !r ==> final(self)@.pending == old(self)@.pending,
            !pending_has(final(self)@.pending, message_id@),
    {
        let ghost old_view = self@;
        match self.position(message_id) {
            Some(i) => {
                let _ = self.pending.remove(i);
                proof {
                    assert(self@.pending =~= old_view.pending.remove(i as int));
                    assert forall|j: int| 0 <= j < self@.pending.len() implies #[trigger] self@.pending[j].message_id
                        != message_id@ by {
                        if j < i {
                            assert(old_view.pending[j].message_id != old_view.pending[i as int].message_id);
                        } else {
                            assert(old_view.pending[j + 1].message_id != old_view.pending[i as int].message_id);
                        }
                    }
                }
                true
            },
            None => false,
        }
    }

    /// Check all pending messages at time `now` (nanoseconds on the tracker's
    /// clock) and return any that need retransmission or have failed, in
    /// order. Timed-out messages under the retry limit are marked resent at
    /// `now`; those at the limit are removed.
    pub fn check_timeouts_at(&mut self, now: u128) -> (r: Vec<AckStatus>)
        requires
            old(self).wf(),
        ensures
            final(self).wf(),
            statuses(r@) == check_all(old(self)@, now).0,
            final(self)@.pending == check_all(old(self)@, now).1,
            final(self)@.timeout == old(self)@.timeout,
            final(self)@.max_retries == old(self)@.max_retries,
    {
        let ghost m = self@;
        let mut results: Vec<AckStatus> = Vec::new();
        let mut kept: Vec<PendingMessage> = Vec::new();
        let mut old_pending: Vec<PendingMessage> = Vec::new();
        std::mem::swap(&mut old_pending, &mut self.pending);
        let n = old_pending.len();
        let mut i: usize = 0;
        while i < n
            invariant
                i <= n == old_pending@.len() == m.pending.len(),
                forall|j: int| 0 <= j < n ==> #[trigger] old_pending@[j].model() == m.pending[j],
                statuses(results@) == check_prefix(m.pending, i as nat, now, m.timeout, m.max_retries).0,
                kept@.map_values(|e: PendingMessage| e.model()) == check_prefix(
                    m.pending,
                    i as nat,
                    now,
                    m.timeout,
                    m.max_retries,
                ).1,
                self.timeout == m.timeout,
                self.max_retries == m.max_retries,
            decreases n - i,
        {
            let e = &old_pending[i];
            let ghost ei = m.pending[i as int];
            let ghost prev_st = statuses(results@);
            let ghost prev_kept = kept@.map_values(|x: PendingMessage| x.model());
            assert(e.model() == ei);
            let elapsed = if now >= e.last_sent {
                now - e.last_sent
            } else {
                0
            };
            if elapsed >= self.timeout {
                if e.retry_count >= self.max_retries {
                    let st = AckStatus::Failed { message_id: e.message_id };
                    results.push(st);
                    proof {
                        assert(check_entry(ei, now, m.timeout, m.max_retries) == (
                            Some(StatusModel::Failed(ei.message_id)),
                            None::<PendingModel>,
                        ));
                        assert(statuses(results@) =~= prev_st.push(st@));
                        assert(kept@.map_values(|x: PendingMessage| x.model()) =~= prev_kept);
                    }
                } else {
                    let st = AckStatus::NeedsRetransmit(copy_bytes(&e.packet_bytes));
                    results.push(st);
                    let ne = PendingMessage {
                        message_id: e.message_id,
                        packet_bytes: copy_bytes(&e.packet_bytes),
                        last_sent: now,
                        retry_count: e.retry_count + 1,
                        created_at: e.created_at,
                    };
                    kept.push(ne);
                    proof {
                        assert(ne.model() == PendingModel {
                            last_sent: now,
                            retry_count: (ei.retry_count + 1) as u32,
                            ..ei
                        });
                        assert(statuses(results@) =~= prev_st.push(st@));
                        assert(kept@.map_values(|x: PendingMessage| x.model()) =~= prev_kept.push(ne.model()));
                    }
                }
            } else {
                let ne = PendingMessage {
                    message_id: e.message_id,
                    packet_bytes: copy_bytes(&e.packet_bytes),
                    last_sent: e.last_sent,
                    retry_count: e.retry_count,
                    created_at: e.created_at,
                };
                kept.push(ne);
                proof {
                    assert(ne.model() == ei);
                    assert(statuses(results@) =~= prev_st);
                    assert(kept@.map_values(|x: PendingMessage| x.model()) =~= prev_kept.push(ne.model()));
                }
            }
            i = i + 1;
        }
        self.pending = kept;
        proof {
            lemma_check_keeps_wf(m, now, n as nat);
        }
        results
    }

    /// Check all pending messages now and return any that need retransmission
    /// or have failed. What this returns is `check_all` at some reading of the
    /// clock.
    pub fn check_timeouts(&mut self) -> (r: Vec<AckStatus>)
        requires
            old(self).wf(),
        ensures
            final(self).wf(),
            exists|now: u128| #[trigger] checked_at(old(self)@, now, statuses(r@), final(self)@.pending),
            final(self)@.timeout == old(self)@.timeout,
            final(self)@.max_retries == old(self)@.max_retries,
    {
        let now = nanos_since(&self.clock);
        let r = self.check_timeouts_at(now);
        assert(checked_at(old(self)@, now, statuses(r@), self@.pending));
        r
    }

    /// Number of messages pending ACK
    pub fn pending_count(&self) -> (r: usize)
        ensures
            r == self@.pending.len(),
    {
        self.pending.len()
    }

    /// Check if a specific message is still pending
    pub fn is_pending(&self, message_id: &[u8; 16]) -> (r: bool)
        requires
            self.wf(),
        ensures
            r == pending_has(self@.pending, message_id@),
    {
        self.position(message_id).is_some()
    }

    /// Clear all pending messages
    pub fn clear(&mut self)
        requires
            old(self).wf(),
        ensures
            final(self).wf(),
            final(self)@.pending == Seq::<PendingModel>::empty(),
            final(self)@.timeout == old(self)@.timeout,
            final(self)@.max_retries == old(self)@.max_retries,
    {
        self.pending.clear();
        assert(self@.pending =~= Seq::<PendingModel>::empty());
    }
}

impl Default for AckTracker {
    fn default() -> (r: Self)
        ensures
            r.wf(),
            r@.pending == Seq::<PendingModel>::empty(),
            r@.timeout == 2_000_000_000,
            r@.max_retries == 3,
    {
        Self::new()
    }
}

/// Whether two message ids are equal.
pub(crate) fn ids_equal(a: &[u8; 16], b: &[u8; 16]) -> (r: bool)
    ensures
        r == (a@ == b@),
{
    let mut i: usize = 0;
    while i < 16
        invariant
            i <= 16,
            a@.len() == 16,
            b@.len() == 16,
            forall|j: int| 0 <= j < i ==> a@[j] == b@[j],
        decreases 16 - i,
    {
        if a[i] != b[i] {
            return false;
        }
        i = i + 1;
    }
    assert(a@ =~= b@);
    true
}

/// A copy of a byte vector.
pub(crate) fn copy_bytes(v: &Vec<u8>) -> (r: Vec<u8>)
    ensures
        r@ == v@,
{
    crate::wire::tail_vec(v.as_slice(), 0)
}

/// What stays after a check is a subsequence of what was pending, in order,
/// with each entry's id and bytes unchanged.
proof fn lemma_check_prefix_sub(p: Seq<PendingModel>, k: nat, now: u128, timeout: u128, max: u32)
    requires
        k <= p.len(),
    ensures
        ({
            let kept = check_prefix(p, k, now, timeout, max).1;
            &&& kept.len() <= k
            &&& forall|a: int| 0 <= a < kept.len() ==> exists|b: int| 0 <= b < k && #[trigger] kept[a].message_id == p[b].message_id && kept[a].packet_bytes == p[b].packet_bytes
        }),
        forall|a: int, c: int|
            0 <= a < c < check_prefix(p, k, now, timeout, max).1.len() ==> exists|b: int, d: int|
                0 <= b < d < k && #[trigger] check_prefix(p, k, now, timeout, max).1[a].message_id == p[b].message_id
                    && #[trigger] check_prefix(p, k, now, timeout, max).1[c].message_id == p[d].message_id,
        forall|a: int| 0 <= a < check_prefix(p, k, now, timeout, max).1.len() ==> (#[trigger] check_prefix(p, k, now, timeout, max).1[a]).retry_count <= max
            || exists|b: int| 0 <= b < k && check_prefix(p, k, now, timeout, max).1[a] == p[b],
    decreases k,
{
    if k > 0 {
        lemma_check_prefix_sub(p, (k - 1) as nat, now, timeout, max);
    }
}

proof fn lemma_check_keeps_wf(m: AckModel, now: u128, n: nat)
    requires
        ack_wf(m),
        n == m.pending.len(),
    ensures
        ack_wf(AckModel { pending: check_all(m, now).1, ..m }),
{
    let p = m.pending;
    lemma_check_prefix_sub(p, n, now, m.timeout, m.max_retries);
    let kept = check_all(m, now).1;
    assert forall|i: int, j: int| 0 <= i < j < kept.len() implies #[trigger] kept[i].message_id
        != #[trigger] kept[j].message_id by {
        let (b, d) = choose|b: int, d: int|
            0 <= b < d < n && kept[i].message_id == p[b].message_id && kept[j].message_id
                == p[d].message_id;
    }
    assert forall|i: int| 0 <= i < kept.len() implies (#[trigger] kept[i]).message_id.len() == 16 by {
        let b = choose|b: int| 0 <= b < n && kept[i].message_id == p[b].message_id && kept[i].packet_bytes == p[b].packet_bytes;
    }
}

/// Repeated checks of one entry at the given times: the statuses it yields,
/// and the entry left afterwards (if any).
pub open spec fn run_checks(e: PendingModel, times: Seq<u128>, timeout: u128, max_retries: u32) -> (
    Seq<StatusModel>,
    Option<PendingModel>,
)
    decreases times.len(),
{
    if times.len() == 0 {
        (Seq::empty(), Some(e))
    } else {
        let (s, next) = check_entry(e, times[0], timeout, max_retries);
        let first = match s {
            Some(x) => seq![x],
            None => Seq::empty(),
        };
        match next {
            None => (first, None),
            Some(e2) => {
                let (rest, last) = run_checks(e2, times.drop_first(), timeout, max_retries);
                (first + rest, last)
            },
        }
    }
}

/// Check times that each come at least a timeout after the previous send.
pub open spec fn spaced(times: Seq<u128>, start: u128, timeout: u128) -> bool {
    &&& times.len() > 0 ==> times[0] >= start && times[0] - start >= timeout
    &&& forall|i: int| 0 < i < times.len() ==> times[i] >= times[i - 1] && #[trigger] times[i] - times[i - 1] >= timeout
}

/// A message that is never acknowledged is retransmitted once per timeout
/// until it has been retried `max_retries` times; the next timeout reports it
/// failed and drops it.
pub proof fn lemma_retry_then_fail(e: PendingModel, times: Seq<u128>, timeout: u128, max_retries: u32)
    requires
        e.retry_count <= max_retries,
        times.len() == max_retries - e.retry_count + 1,
        spaced(times, e.last_sent, timeout),
    ensures
        run_checks(e, times, timeout, max_retries) == (
            Seq::new(
                (max_retries - e.retry_count) as nat,
                |i: int| StatusModel::NeedsRetransmit(e.packet_bytes),
            ).push(StatusModel::Failed(e.message_id)),
            None::<PendingModel>,
        ),
    decreases max_retries - e.retry_count,
{
    if e.retry_count == max_retries {
        assert(Seq::new(0, |i: int| StatusModel::NeedsRetransmit(e.packet_bytes)).push(
            StatusModel::Failed(e.message_id),
        ) =~= seq![StatusModel::Failed(e.message_id)]);
    } else {
        let e2 = PendingModel { last_sent: times[0], retry_count: (e.retry_count + 1) as u32, ..e };
        let rest = times.drop_first();
        assert forall|i: int| 0 < i < rest.len() implies rest[i] >= rest[i - 1] && #[trigger] rest[i]
            - rest[i - 1] >= timeout by {
            assert(rest[i] == times[i + 1]);
            assert(rest[i - 1] == times[i]);
        }
        if rest.len() > 0 {
            assert(rest[0] == times[1]);
        }
        lemma_retry_then_fail(e2, rest, timeout, max_retries);
        let k = (max_retries - e.retry_count) as nat;
        assert(seq![StatusModel::NeedsRetransmit(e.packet_bytes)] + Seq::new(
            (k - 1) as nat,
            |i: int| StatusModel::NeedsRetransmit(e.packet_bytes),
        ).push(StatusModel::Failed(e.message_id)) =~= Seq::new(
            k,
            |i: int| StatusModel::NeedsRetransmit(e.packet_bytes),
        ).push(StatusModel::Failed(e.message_id)));
    }
}

/// A registered message is pending, under its id, with its bytes and no retries.
pub proof fn lemma_registered_is_pending(
    before: Seq<PendingModel>,
    id: Seq<u8>,
    bytes: Seq<u8>,
    now: u128,
    after: Seq<PendingModel>,
)
    requires
        registered(before, id, bytes, now, after),
    ensures
        pending_has(after, id),
        exists|i: int|
            0 <= i < after.len() && #[trigger] after[i] == (PendingModel {
                message_id: id,
                packet_bytes: bytes,
                last_sent: now,
                retry_count: 0,
                created_at: now,
            }),
{
    reveal(registered);
    let e = PendingModel {
        message_id: id,
        packet_bytes: bytes,
        last_sent: now,
        retry_count: 0,
        created_at: now,
    };
    if pending_has(before, id) {
        let i = choose|i: int|
            0 <= i < before.len() && #[trigger] before[i].message_id == id && after == before.update(i, e);
        assert(after[i] == e);
        assert(after[i].message_id == id);
    } else {
        assert(after[before.len() as int] == e);
        assert(after[before.len() as int].message_id == id);
    }
}

} // verus!
