//! In-order, duplicate-free delivery of chat messages.
//!
//! Recently seen message ids are remembered to drop duplicates (which
//! retransmission can cause). Messages carrying a sequence number are
//! delivered strictly in sequence: one that arrives early waits in a
//! reorder buffer, sorted by sequence number, until the gap before it fills.

use vstd::prelude::*;

verus! {

/// A message waiting for delivery: sequence number, id, data.
pub type Entry = (u64, [u8; 16], Vec<u8>);

/// The content of a waiting message.
pub type EntryModel = (u64, Seq<u8>, Seq<u8>);

/// The content of a waiting message's fields.
pub open spec fn entry_model(e: Entry) -> EntryModel {
    (e.0, e.1@, e.2@)
}

/// The contents of a list of waiting messages.
pub open spec fn entries(v: Seq<Entry>) -> Seq<EntryModel> {
    v.map_values(|e: Entry| entry_model(e))
}

/// Ensures messages are processed in order and duplicates are rejected.
pub struct MessageOrderer {
    /// Recently seen message ids, for deduplication; no id occurs twice (a
    /// `Vec` rather than a hash set: vstd has no hash-table key model for
    /// `[u8; 16]`, so a hash set of ids would carry no provable contract)
    seen_ids: Vec<[u8; 16]>,
    /// Maximum number of ids to remember (the memory is cleared when full)
    max_seen: usize,
    /// Next expected sequence number for strict ordering
    next_sequence: u64,
    /// Buffer for out-of-order messages, sorted by sequence number
    reorder_buffer: Vec<Entry>,
}

/// The abstract state of an orderer.
pub ghost struct OrdererModel {
    pub seen: Seq<Seq<u8>>,
    pub max_seen: usize,
    pub next_sequence: u64,
    pub buffer: Seq<EntryModel>,
}

impl View for MessageOrderer {
    type V = OrdererModel;

    closed spec fn view(&self) -> OrdererModel {
        OrdererModel {
            seen: self.seen_ids@.map_values(|id: [u8; 16]| id@),
            max_seen: self.max_seen,
            next_sequence: self.next_sequence,
            buffer: entries(self.reorder_buffer@),
        }
    }
}

/// Whether the buffer is sorted by sequence number.
pub open spec fn sorted(b: Seq<EntryModel>) -> bool {
    forall|i: int, j: int| 0 <= i <= j < b.len() ==> (#[trigger] b[i]).0 <= (#[trigger] b[j]).0
}

/// The invariant of an orderer.
pub open spec fn orderer_wf(m: OrdererModel) -> bool {
    &&& m.max_seen >= 1
    &&& m.seen.len() <= m.max_seen
    &&& sorted(m.buffer)
}

/// The seen-id memory after recording a new id: cleared first when full.
pub open spec fn record(seen: Seq<Seq<u8>>, max_seen: usize, id: Seq<u8>) -> Seq<Seq<u8>> {
    if seen.len() >= max_seen {
        seq![id]
    } else {
        seen.push(id)
    }
}

/// Where a message with sequence number `key` goes in a sorted buffer: after
/// every message with a sequence number not above it.
pub open spec fn insert_pos(b: Seq<EntryModel>, key: u64) -> nat
    decreases b.len(),
{
    if b.len() == 0 {
        0
    } else if b[0].0 > key {
        0
    } else {
        1 + insert_pos(b.drop_first(), key)
    }
}

/// The first position holding sequence number `s`, if any.
pub open spec fn first_with(b: Seq<EntryModel>, s: u64) -> Option<nat>
    decreases b.len(),
{
    if b.len() == 0 {
        None
    } else if b[0].0 == s {
        Some(0)
    } else {
        match first_with(b.drop_first(), s) {
            None => None,
            Some(i) => Some(i + 1),
        }
    }
}

/// Delivering from the buffer starting at sequence number `next`: the
/// messages delivered, in order, what stays buffered, and the next expected
/// sequence number.
pub open spec fn drain(b: Seq<EntryModel>, next: u64) -> (Seq<EntryModel>, Seq<EntryModel>, u64)
    decreases b.len(),
{
    match first_with(b, next) {
        None => (Seq::empty(), b, next),
        Some(i) => if i < b.len() {
            let (d, r, n) = drain(b.remove(i as int), (next + 1) as u64);
            (seq![b[i as int]] + d, r, n)
        } else {
            (Seq::empty(), b, next)
        },
    }
}

proof fn lemma_first_with(b: Seq<EntryModel>, s: u64)
    ensures
        first_with(b, s) matches Some(i) ==> i < b.len() && b[i as int].0 == s && forall|j: int|
            0 <= j < i ==> #[trigger] b[j].0 != s,
        first_with(b, s) is None ==> forall|j: int| 0 <= j < b.len() ==> #[trigger] b[j].0 != s,
    decreases b.len(),
{
    if b.len() > 0 {
        lemma_first_with(b.drop_first(), s);
        if b[0].0 != s {
            assert forall|j: int| 0 < j < b.len() implies #[trigger] b[j].0 != s || first_with(b, s)
                is Some by {
                assert(b[j] == b.drop_first()[j - 1]);
            }
            match first_with(b.drop_first(), s) {
                None => {},
                Some(i) => {
                    assert forall|j: int| 0 <= j < i + 1 implies #[trigger] b[j].0 != s by {
                        if j > 0 {
                            assert(b[j] == b.drop_first()[j - 1]);
                        }
                    }
                },
            }
        }
    }
}

proof fn lemma_insert_pos(b: Seq<EntryModel>, key: u64)
    requires
        sorted(b),
    ensures
        insert_pos(b, key) <= b.len(),
        forall|j: int| 0 <= j < insert_pos(b, key) ==> #[trigger] b[j].0 <= key,
        forall|j: int| insert_pos(b, key) <= j < b.len() ==> #[trigger] b[j].0 > key,
    decreases b.len(),
{
    if b.len() > 0 {
        let t = b.drop_first();
        assert(sorted(t)) by {
            assert forall|i: int, j: int| 0 <= i <= j < t.len() implies (#[trigger] t[i]).0 <= (
            #[trigger] t[j]).0 by {
                assert(t[i] == b[i + 1] && t[j] == b[j + 1]);
            }
        }
        lemma_insert_pos(t, key);
        if b[0].0 > key {
            assert forall|j: int| 0 <= j < b.len() implies #[trigger] b[j].0 > key by {
                assert(b[0].0 <= b[j].0);
            }
        } else {
            assert forall|j: int| 0 <= j < insert_pos(b, key) implies #[trigger] b[j].0 <= key by {
                if j > 0 {
                    assert(b[j] == t[j - 1]);
                }
            }
            assert forall|j: int| insert_pos(b, key) <= j < b.len() implies #[trigger] b[j].0 > key by {
                assert(b[j] == t[j - 1]);
            }
        }
    }
}

/// Removing an element keeps a buffer sorted.
proof fn lemma_remove_sorted(b: Seq<EntryModel>, i: int)
    requires
        sorted(b),
        0 <= i < b.len(),
    ensures
        sorted(b.remove(i)),
{
    let r = b.remove(i);
    assert forall|x: int, y: int| 0 <= x <= y < r.len() implies (#[trigger] r[x]).0 <= (
    #[trigger] r[y]).0 by {
        let bx = if x < i { x } else { x + 1 };
        let by_ = if y < i { y } else { y + 1 };
        assert(r[x] == b[bx] && r[y] == b[by_]);
    }
}

/// What drain delivers is consecutive sequence numbers starting at `next`,
/// and the next expected number moves past them; the rest stays sorted.
pub proof fn lemma_drain_consecutive(b: Seq<EntryModel>, next: u64)
    requires
        sorted(b),
        next + b.len() <= u64::MAX,
    ensures
        ({
            let (d, r, n) = drain(b, next);
            &&& n == next + d.len()
            &&& forall|i: int| 0 <= i < d.len() ==> (#[trigger] d[i]).0 == next + i
            &&& d.len() + r.len() == b.len()
            &&& sorted(r)
        }),
    decreases b.len(),
{
    lemma_first_with(b, next);
    match first_with(b, next) {
        None => {},
        Some(i) => {
            lemma_remove_sorted(b, i as int);
            lemma_drain_consecutive(b.remove(i as int), (next + 1) as u64);
            let (d, r, n) = drain(b.remove(i as int), (next + 1) as u64);
            let full = seq![b[i as int]] + d;
            assert forall|k: int| 0 <= k < full.len() implies (#[trigger] full[k]).0 == next + k by {
                if k > 0 {
                    assert(full[k] == d[k - 1]);
                }
            }
        },
    }
}

impl MessageOrderer {
    /// The orderer's invariant holds.
    pub closed spec fn wf(&self) -> bool {
        orderer_wf(self@)
    }

    /// Create a new orderer remembering up to 10000 recent ids
    pub fn new() -> (r: Self)
        ensures
            r.wf(),
            r@.seen == Seq::<Seq<u8>>::empty(),
            r@.max_seen == 10_000,
            r@.next_sequence == 0,
            r@.buffer == Seq::<EntryModel>::empty(),
    {
        let r = Self { seen_ids: Vec::new(), max_seen: 10_000, next_sequence: 0, reorder_buffer: Vec::new() };
        assert(r@.seen =~= Seq::<Seq<u8>>::empty());
        assert(r@.buffer =~= Seq::<EntryModel>::empty());
        r
    }

    /// Check if a message id has already been seen (duplicate detection),
    /// and remember it. Returns `true` if this is a new message.
    pub fn check_and_record(&mut self, message_id: &[u8; 16]) -> (r: bool)
        requires
            old(self).wf(),
        ensures
            final(self).wf(),
            r == !old(self)@.seen.contains(message_id@),
            r ==> final(self)@.seen == record(old(self)@.seen, old(self)@.max_seen, message_id@),
            !r ==> final(self)@.seen == old(self)@.seen,
            final(self)@.seen == check_step(old(self)@.seen, old(self)@.max_seen, message_id@),
            final(self)@.max_seen == old(self)@.max_seen,
            final(self)@.next_sequence == old(self)@.next_sequence,
            final(self)@.buffer == old(self)@.buffer,
    {
        let ghost old_seen = self@.seen;
        let mut i: usize = 0;
        while i < self.seen_ids.len()
            invariant
                i <= self.seen_ids@.len(),
                self@ == old(self)@,
                orderer_wf(self@),
                old_seen == self.seen_ids@.map_values(|id: [u8; 16]| id@),
                forall|j: int| 0 <= j < i ==> old_seen[j] != message_id@,
            decreases self.seen_ids@.len() - i,
        {
            if crate::ack_tracker::ids_equal(&self.seen_ids[i], message_id) {
                assert(old_seen[i as int] == message_id@);
                return false;
            }
            i = i + 1;
        }
        assert(!old_seen.contains(message_id@));
        if self.seen_ids.len() >= self.max_seen {
            self.seen_ids.clear();
        }
        self.seen_ids.push(*message_id);
        assert(self@.seen =~= record(old_seen, self.max_seen, message_id@));
        true
    }

    /// Submit a message with a sequence number for ordered delivery.
    /// Returns the messages that are now ready to be delivered, in order.
    /// A duplicate id, or a sequence number already passed, delivers nothing.
    pub fn submit_ordered(&mut self, sequence: u64, message_id: [u8; 16], data: Vec<u8>) -> (r: Vec<Entry>)
        requires
            old(self).wf(),
            old(self)@.next_sequence + old(self)@.buffer.len() < u64::MAX,
        ensures
            final(self).wf(),
            final(self)@.max_seen == old(self)@.max_seen,
            ({
                let o = old(self)@;
                let f = final(self)@;
                let e: EntryModel = (sequence, message_id@, data@);
                if o.seen.contains(message_id@) {
                    &&& entries(r@) == Seq::<EntryModel>::empty()
                    &&& f == o
                } else {
                    &&& f.seen == record(o.seen, o.max_seen, message_id@)
                    &&& if sequence == o.next_sequence {
                        let (d, rest, n) = drain(o.buffer, (o.next_sequence + 1) as u64);
                        &&& entries(r@) == seq![e] + d
                        &&& f.buffer == rest
                        &&& f.next_sequence == n
                    } else if sequence > o.next_sequence {
                        &&& entries(r@) == Seq::<EntryModel>::empty()
                        &&& f.buffer == o.buffer.insert(insert_pos(o.buffer, sequence) as int, e)
                        &&& f.next_sequence == o.next_sequence
                    } else {
                        &&& entries(r@) == Seq::<EntryModel>::empty()
                        &&& f.buffer == o.buffer
                        &&& f.next_sequence == o.next_sequence
                    }
                }
            }),
    {
        let ghost o = self@;
        if !self.check_and_record(&message_id) {
            let r: Vec<Entry> = Vec::new();
            assert(entries(r@) =~= Seq::<EntryModel>::empty());
            assert(self@.seen =~= o.seen);
            return r;
        }
        let ghost e: EntryModel = (sequence, message_id@, data@);
        if sequence == self.next_sequence {
            let mut deliverable: Vec<Entry> = Vec::new();
            deliverable.push((sequence, message_id, data));
            self.next_sequence = self.next_sequence + 1;
            proof {
                assert(entries(deliverable@) =~= seq![e]);
            }
            let ghost start = self@;
            loop
                invariant
                    self.wf(),
                    o.next_sequence + o.buffer.len() < u64::MAX,
                    self@.seen == start.seen,
                    self@.max_seen == start.max_seen,
                    self@.next_sequence + self@.buffer.len() <= u64::MAX,
                    seq![e] + drain(o.buffer, (o.next_sequence + 1) as u64).0 == entries(deliverable@)
                        + drain(self@.buffer, self@.next_sequence).0,
                    drain(o.buffer, (o.next_sequence + 1) as u64).1 == drain(self@.buffer, self@.next_sequence).1,
                    drain(o.buffer, (o.next_sequence + 1) as u64).2 == drain(self@.buffer, self@.next_sequence).2,
                ensures
                    self.wf(),
                    self@.seen == start.seen,
                    self@.max_seen == start.max_seen,
                    entries(deliverable@) == seq![e] + drain(o.buffer, (o.next_sequence + 1) as u64).0,
                    self@.buffer == drain(o.buffer, (o.next_sequence + 1) as u64).1,
                    self@.next_sequence == drain(o.buffer, (o.next_sequence + 1) as u64).2,
                decreases self@.buffer.len(),
            {
                let ghost cur = self@;
                let found = self.find_sequence(self.next_sequence);
                match found {
                    Some(idx) => {
                        proof {
                            lemma_first_with(cur.buffer, cur.next_sequence);
                            lemma_remove_sorted(cur.buffer, idx as int);
                        }
                        let item = self.reorder_buffer.remove(idx);
                        deliverable.push(item);
                        self.next_sequence = self.next_sequence + 1;
                        proof {
                            assert(self@.buffer =~= cur.buffer.remove(idx as int));
                            let (d, r, n) = drain(cur.buffer.remove(idx as int), (cur.next_sequence + 1) as u64);
                            assert(drain(cur.buffer, cur.next_sequence).0 =~= seq![cur.buffer[idx as int]] + d);
                            assert(entries(deliverable@) =~= entries(deliverable@.drop_last()).push(entry_model(item)));
                            assert(entry_model(item) == cur.buffer[idx as int]);
                            assert(seq![e] + drain(o.buffer, (o.next_sequence + 1) as u64).0 =~= entries(deliverable@) + d);
                        }
                    },
                    None => {
                        proof {
                            assert(drain(cur.buffer, cur.next_sequence).0 =~= Seq::<EntryModel>::empty());
                            assert(entries(deliverable@) + Seq::<EntryModel>::empty() =~= entries(deliverable@));
                            assert(drain(cur.buffer, cur.next_sequence).1 == cur.buffer);
                            assert(drain(cur.buffer, cur.next_sequence).2 == cur.next_sequence);
                        }
                        break;
                    },
                }
            }
            deliverable
        } else if sequence > self.next_sequence {
            let ghost b = self@.buffer;
            let pos = self.insert_position(sequence);
            proof {
                lemma_insert_pos(b, sequence);
            }
            self.reorder_buffer.insert(pos, (sequence, message_id, data));
            proof {
                lemma_insert_pos(b, sequence);
                assert(self@.buffer =~= b.insert(pos as int, e));
                let nb = self@.buffer;
                assert forall|i: int, j: int| 0 <= i <= j < nb.len() implies (#[trigger] nb[i]).0 <= (
                #[trigger] nb[j]).0 by {
                    let bi = if i < pos { i } else if i == pos { -1 } else { i - 1 };
                    let bj = if j < pos { j } else if j == pos { -1 } else { j - 1 };
                    if bi >= 0 && bj >= 0 {
                        assert(nb[i] == b[bi] && nb[j] == b[bj]);
                    } else if bi < 0 && bj >= 0 {
                        assert(nb[j] == b[bj]);
                    } else if bi >= 0 && bj < 0 {
                        assert(nb[i] == b[bi]);
                    }
                }
            }
            let r: Vec<Entry> = Vec::new();
            assert(entries(r@) =~= Seq::<EntryModel>::empty());
            r
        } else {
            let r: Vec<Entry> = Vec::new();
            assert(entries(r@) =~= Seq::<EntryModel>::empty());
            r
        }
    }

    /// The first buffer position holding sequence number `s`.
    fn find_sequence(&self, s: u64) -> (r: Option<usize>)
        ensures
            r matches Some(i) ==> first_with(self@.buffer, s) == Some(i as nat),
            r is None ==> first_with(self@.buffer, s) is None,
    {
        proof {
            lemma_first_with(self@.buffer, s);
        }
        let mut i: usize = 0;
        while i < self.reorder_buffer.len()
            invariant
                i <= self.reorder_buffer@.len(),
                self@.buffer.len() == self.reorder_buffer@.len(),
                forall|j: int| 0 <= j < i ==> #[trigger] self@.buffer[j].0 != s,
            decreases self.reorder_buffer@.len() - i,
        {
            if self.reorder_buffer[i].0 == s {
                proof {
                    assert(self@.buffer[i as int].0 == s);
                    lemma_first_with_at(self@.buffer, s, i as nat);
                }
                return Some(i);
            }
            assert(self@.buffer[i as int].0 != s);
            i = i + 1;
        }
        None
    }

    /// Where a message with sequence number `key` is inserted.
    fn insert_position(&self, key: u64) -> (r: usize)
        requires
            self.wf(),
        ensures
            r == insert_pos(self@.buffer, key),
    {
        proof {
            lemma_insert_pos(self@.buffer, key);
        }
        let mut i: usize = 0;
        while i < self.reorder_buffer.len() && self.reorder_buffer[i].0 <= key
            invariant
                i <= self.reorder_buffer@.len(),
                self@.buffer.len() == self.reorder_buffer@.len(),
                i <= insert_pos(self@.buffer, key),
                self.wf(),
            decreases self.reorder_buffer@.len() - i,
        {
            assert(self@.buffer[i as int].0 <= key);
            proof {
                lemma_insert_pos(self@.buffer, key);
            }
            i = i + 1;
        }
        if i < self.reorder_buffer.len() {
            assert(self@.buffer[i as int].0 > key);
        }
        i
    }

    /// Get the next expected sequence number
    pub fn next_expected_sequence(&self) -> (r: u64)
        ensures
            r == self@.next_sequence,
    {
        self.next_sequence
    }

    /// Number of messages in the reorder buffer
    pub fn buffered_count(&self) -> (r: usize)
        ensures
            r == self@.buffer.len(),
    {
        self.reorder_buffer.len()
    }
}

impl Default for MessageOrderer {
    fn default() -> (r: Self)
        ensures
            r.wf(),
            r@.seen == Seq::<Seq<u8>>::empty(),
            r@.max_seen == 10_000,
            r@.next_sequence == 0,
            r@.buffer == Seq::<EntryModel>::empty(),
    {
        Self::new()
    }
}

proof fn lemma_first_with_at(b: Seq<EntryModel>, s: u64, i: nat)
    requires
        i < b.len(),
        b[i as int].0 == s,
        forall|j: int| 0 <= j < i ==> #[trigger] b[j].0 != s,
    ensures
        first_with(b, s) == Some(i),
    decreases i,
{
    if i > 0 {
        let t = b.drop_first();
        assert forall|j: int| 0 <= j < i - 1 implies #[trigger] t[j].0 != s by {
            assert(t[j] == b[j + 1]);
        }
        lemma_first_with_at(t, s, (i - 1) as nat);
    }
}

/// A message that is new is reported new once: recording it and asking again
/// reports a duplicate.
pub proof fn lemma_duplicate_rejected(seen: Seq<Seq<u8>>, max_seen: usize, id: Seq<u8>)
    ensures
        record(seen, max_seen, id).contains(id),
{
    let r = record(seen, max_seen, id);
    assert(r[r.len() - 1] == id);
}

/// The seen-id memory after checking one id: unchanged for a duplicate,
/// recorded otherwise (what `check_and_record` does to it).
pub open spec fn check_step(seen: Seq<Seq<u8>>, max_seen: usize, id: Seq<u8>) -> Seq<Seq<u8>> {
    if seen.contains(id) {
        seen
    } else {
        record(seen, max_seen, id)
    }
}

/// The seen-id memory after checking each of `ids` in turn.
pub open spec fn check_all(seen: Seq<Seq<u8>>, max_seen: usize, ids: Seq<Seq<u8>>) -> Seq<Seq<u8>>
    decreases ids.len(),
{
    if ids.len() == 0 {
        seen
    } else {
        check_step(check_all(seen, max_seen, ids.drop_last()), max_seen, ids.last())
    }
}

/// Duplicate detection over a whole history: starting from an empty
/// memory, as long as fewer distinct ids than the memory holds have been
/// checked, the memory holds exactly the ids checked so far, each once. So
/// checking an id again reports a duplicate exactly when it was checked
/// before.
pub proof fn lemma_history_remembered(max_seen: usize, ids: Seq<Seq<u8>>)
    requires
        ids.to_set().len() < max_seen,
    ensures
        check_all(Seq::empty(), max_seen, ids).no_duplicates(),
        forall|id: Seq<u8>| #[trigger] check_all(Seq::empty(), max_seen, ids).contains(id) <==> ids.contains(id),
        check_all(Seq::empty(), max_seen, ids).len() == ids.to_set().len(),
    decreases ids.len(),
{
    broadcast use vstd::seq_lib::seq_to_set_is_finite;
    let s = check_all(Seq::<Seq<u8>>::empty(), max_seen, ids);
    if ids.len() == 0 {
        assert(ids.to_set() =~= Set::<Seq<u8>>::empty());
    } else {
        let pre = ids.drop_last();
        let x = ids.last();
        assert(ids =~= pre.push(x));
        pre.lemma_push_to_set_commute(x);
        assert(pre.to_set().subset_of(ids.to_set()));
        vstd::set_lib::lemma_len_subset(pre.to_set(), ids.to_set());
        lemma_history_remembered(max_seen, pre);
        let s0 = check_all(Seq::<Seq<u8>>::empty(), max_seen, pre);
        if s0.contains(x) {
            assert(pre.contains(x));
            assert(pre.to_set().insert(x) =~= pre.to_set());
            assert forall|id: Seq<u8>| s.contains(id) <==> ids.contains(id) by {
                assert(ids.contains(id) <==> pre.contains(id) || id == x);
            }
        } else {
            assert(!pre.to_set().contains(x));
            assert(s0.len() < max_seen);
            assert(s =~= s0.push(x));
            assert forall|a: int, b: int| 0 <= a < s.len() && 0 <= b < s.len() && a != b implies s[a]
                != s[b] by {
                if a < s0.len() && b < s0.len() {
                } else if a == s0.len() {
                    assert(s0.contains(s[b]));
                } else {
                    assert(s0.contains(s[a]));
                }
            }
            assert forall|id: Seq<u8>| s.contains(id) <==> ids.contains(id) by {
                assert(ids.contains(id) <==> pre.contains(id) || id == x);
                if s.contains(id) && id != x {
                    let k = choose|k: int| 0 <= k < s.len() && s[k] == id;
                    assert(s0[k] == id);
                }
                if id == x {
                    assert(s[s.len() - 1] == x);
                }
                if s0.contains(id) {
                    let k = choose|k: int| 0 <= k < s0.len() && s0[k] == id;
                    assert(s[k] == id);
                }
            }
        }
    }
}

} // verus!
