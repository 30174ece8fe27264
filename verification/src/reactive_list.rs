//! An ordered, uniquely-keyed collection of independently editable ticket
//! entries: the in-memory model behind the booking form. Entries keep a
//! stable identity across removals, insertion order is the display order,
//! and every mutation records exactly one notification for observers, so
//! that dependent aggregate computations recompute once per mutation.

use vstd::prelude::*;
use crate::model::Ticket;

verus! {

/// The stable identity of one entry. Identities are never reused within a
/// process lifetime: each collection hands them out from a monotonically
/// increasing counter.
pub type EntryId = u64;

/// What observers are told about a mutation: either the structure changed
/// (an entry came or went) or one entry's value changed.
#[derive(Debug, PartialEq, Eq, Clone, Copy, Structural)]
pub enum Notification {
    StructureChanged,
    EntryValue(EntryId),
}

/// Every id in `s` is below `bound`.
pub open spec fn ids_below(s: Seq<(EntryId, Ticket)>, bound: EntryId) -> bool {
    forall|i: int| 0 <= i < s.len() ==> (#[trigger] s[i]).0 < bound
}

/// No two entries of `s` share an id.
pub open spec fn ids_distinct(s: Seq<(EntryId, Ticket)>) -> bool {
    forall|i: int, j: int| 0 <= i < j < s.len() ==> (#[trigger] s[i]).0 != (#[trigger] s[j]).0
}

/// Some entry of `s` carries `id`.
pub open spec fn has_id(s: Seq<(EntryId, Ticket)>, id: EntryId) -> bool {
    exists|i: int| 0 <= i < s.len() && (#[trigger] s[i]).0 == id
}

/// `s` with the first entry carrying `id` deleted; `s` itself when no entry
/// carries it. Surviving entries keep their relative order.
pub open spec fn remove_id(s: Seq<(EntryId, Ticket)>, id: EntryId) -> Seq<(EntryId, Ticket)>
    decreases s.len(),
{
    if s.len() == 0 {
        s
    } else if s[0].0 == id {
        s.drop_first()
    } else {
        seq![s[0]] + remove_id(s.drop_first(), id)
    }
}

/// `s` with the value of the first entry carrying `id` replaced by `t`;
/// `s` itself when no entry carries it.
pub open spec fn update_id(s: Seq<(EntryId, Ticket)>, id: EntryId, t: Ticket) -> Seq<
    (EntryId, Ticket),
>
    decreases s.len(),
{
    if s.len() == 0 {
        s
    } else if s[0].0 == id {
        seq![(id, t)] + s.drop_first()
    } else {
        seq![s[0]] + update_id(s.drop_first(), id, t)
    }
}

/// The reactive ticket collection: an ordered mapping from generated entry
/// ids to tickets, with a log of pending notifications.
pub struct ReactiveTicketCollection {
    entries: Vec<(EntryId, Ticket)>,
    next_id: EntryId,
    pending: Vec<Notification>,
}

impl View for ReactiveTicketCollection {
    type V = Seq<(EntryId, Ticket)>;

    /// The entries in display order.
    closed spec fn view(&self) -> Seq<(EntryId, Ticket)> {
        self.entries@
    }
}

impl ReactiveTicketCollection {
    /// The next identity this collection will hand out. Every identity
    /// already handed out is below it.
    pub closed spec fn next_id_spec(&self) -> EntryId {
        self.next_id
    }

    /// The notifications recorded since the last drain, oldest first.
    pub closed spec fn pending_view(&self) -> Seq<Notification> {
        self.pending@
    }

    /// Well-formedness: ids are distinct and below the counter.
    pub open spec fn wf(&self) -> bool {
        ids_below(self@, self.next_id_spec()) && ids_distinct(self@)
    }

    /// An empty collection with an empty notification log.
    pub fn create_empty() -> (c: Self)
        ensures
            c.wf(),
            c@ == Seq::<(EntryId, Ticket)>::empty(),
            c.pending_view() == Seq::<Notification>::empty(),
            c.next_id_spec() == 0,
    {
        ReactiveTicketCollection { entries: Vec::new(), next_id: 0, pending: Vec::new() }
    }

    /// Number of entries.
    pub fn len(&self) -> (n: usize)
        ensures
            n == self@.len(),
    {
        self.entries.len()
    }

    /// Appends `t` at the end under a fresh identity and returns that
    /// identity; records one structural notification.
    pub fn insert_new(&mut self, t: Ticket) -> (id: EntryId)
        requires
            old(self).wf(),
            old(self).next_id_spec() < EntryId::MAX,
        ensures
            final(self).wf(),
            id == old(self).next_id_spec(),
            final(self)@ == old(self)@.push((id, t)),
            final(self).next_id_spec() == id + 1,
            final(self).pending_view() == old(self).pending_view().push(
                Notification::StructureChanged,
            ),
    {
        let id = self.next_id;
        self.entries.push((id, t));
        self.next_id = id + 1;
        self.pending.push(Notification::StructureChanged);
        id
    }

    /// Deletes the entry carrying `id`, preserving the relative order of the
    /// remaining entries, and records one structural notification; a no-op
    /// when no entry carries `id`.
    pub fn remove(&mut self, id: EntryId)
        requires
            old(self).wf(),
        ensures
            final(self).wf(),
            final(self)@ == remove_id(old(self)@, id),
            final(self).next_id_spec() == old(self).next_id_spec(),
            final(self).pending_view() == if has_id(old(self)@, id) {
                old(self).pending_view().push(Notification::StructureChanged)
            } else {
                old(self).pending_view()
            },
    {
        let n = self.entries.len();
        for k in 0..n
            invariant
                old(self).wf(),
                *self == *old(self),
                n == self.entries@.len(),
                forall|j: int| 0 <= j < k ==> (#[trigger] self.entries@[j]).0 != id,
        {
            if self.entries[k].0 == id {
                proof {
                    assert(has_id(self.entries@, id)) by {
                        assert(self.entries@[k as int].0 == id);
                    }
                    lemma_remove_id_at(self.entries@, id, k as int);
                    lemma_remove_id_wf(self.entries@, id, self.next_id);
                }
                self.entries.remove(k);
                self.pending.push(Notification::StructureChanged);
                return ;
            }
        }
        proof {
            lemma_remove_id_absent(self@, id);
        }
    }

    /// Replaces the value of the entry carrying `id` by `t` and records one
    /// value notification for that entry alone; a no-op when no entry
    /// carries `id`. Other entries and the structure are untouched.
    pub fn update(&mut self, id: EntryId, t: Ticket)
        requires
            old(self).wf(),
        ensures
            final(self).wf(),
            final(self)@ == update_id(old(self)@, id, t),
            final(self).next_id_spec() == old(self).next_id_spec(),
            final(self).pending_view() == if has_id(old(self)@, id) {
                old(self).pending_view().push(Notification::EntryValue(id))
            } else {
                old(self).pending_view()
            },
    {
        let n = self.entries.len();
        for k in 0..n
            invariant
                old(self).wf(),
                *self == *old(self),
                n == self.entries@.len(),
                forall|j: int| 0 <= j < k ==> (#[trigger] self.entries@[j]).0 != id,
        {
            if self.entries[k].0 == id {
                proof {
                    assert(has_id(self.entries@, id)) by {
                        assert(self.entries@[k as int].0 == id);
                    }
                    lemma_update_id_at(self.entries@, id, t, k as int);
                    assert(self.entries@.remove(k as int).insert(k as int, (id, t))
                        =~= self.entries@.update(k as int, (id, t)));
                    lemma_update_id_wf(self.entries@, id, t, self.next_id);
                }
                self.entries.remove(k);
                self.entries.insert(k, (id, t));
                self.pending.push(Notification::EntryValue(id));
                return ;
            }
        }
        proof {
            lemma_update_id_absent(self@, id, t);
        }
    }

    /// The ticket of the entry carrying `id`, if any.
    pub fn get(&self, id: EntryId) -> (r: Option<Ticket>)
        requires
            self.wf(),
        ensures
            match r {
                Some(t) => exists|i: int|
                    0 <= i < self@.len() && #[trigger] self@[i] == (id, t),
                None => !has_id(self@, id),
            },
    {
        let n = self.entries.len();
        for k in 0..n
            invariant
                n == self.entries@.len(),
                forall|j: int| 0 <= j < k ==> (#[trigger] self.entries@[j]).0 != id,
        {
            if self.entries[k].0 == id {
                let t = self.entries[k].1.clone();
                proof {
                    assert(self@[k as int] == (id, t));
                }
                return Some(t);
            }
        }
        None
    }

    /// A snapshot of the entries in display order.
    pub fn to_ordered_sequence(&self) -> (r: Vec<(EntryId, Ticket)>)
        ensures
            r@ == self@,
    {
        let mut out: Vec<(EntryId, Ticket)> = Vec::new();
        let n = self.entries.len();
        for k in 0..n
            invariant
                n == self.entries@.len(),
                out@ =~= self.entries@.subrange(0, k as int),
        {
            let id = self.entries[k].0;
            let t = self.entries[k].1.clone();
            out.push((id, t));
        }
        proof {
            assert(out@ =~= self@);
        }
        out
    }

    /// Drains and returns the recorded notifications, oldest first.
    pub fn take_notifications(&mut self) -> (r: Vec<Notification>)
        ensures
            r@ == old(self).pending_view(),
            final(self).pending_view() == Seq::<Notification>::empty(),
            final(self)@ == old(self)@,
            final(self).next_id_spec() == old(self).next_id_spec(),
            old(self).wf() ==> final(self).wf(),
    {
        let mut out: Vec<Notification> = Vec::new();
        core::mem::swap(&mut out, &mut self.pending);
        out
    }
}

/// One user action on the collection: appending a ticket under a fresh
/// identity, or deleting the entry with a given identity.
pub enum Op {
    Insert(Ticket),
    Remove(EntryId),
}

/// The id counter after one identity has been handed out; it never wraps.
pub open spec fn bump(n: EntryId) -> EntryId {
    if n < EntryId::MAX {
        (n + 1) as EntryId
    } else {
        n
    }
}

/// The effect of one operation on the entries and the id counter, exactly
/// as `insert_new` and `remove` describe it in their contracts.
pub open spec fn step(state: (Seq<(EntryId, Ticket)>, EntryId), op: Op) -> (
    Seq<(EntryId, Ticket)>,
    EntryId,
) {
    match op {
        Op::Insert(t) => (state.0.push((state.1, t)), bump(state.1)),
        Op::Remove(id) => (remove_id(state.0, id), state.1),
    }
}

/// The entries and id counter after a whole sequence of operations.
pub open spec fn replay(state: (Seq<(EntryId, Ticket)>, EntryId), ops: Seq<Op>) -> (
    Seq<(EntryId, Ticket)>,
    EntryId,
)
    decreases ops.len(),
{
    if ops.len() == 0 {
        state
    } else {
        replay(step(state, ops[0]), ops.drop_first())
    }
}

/// How many of the operations are insertions.
pub open spec fn insert_count(ops: Seq<Op>) -> int
    decreases ops.len(),
{
    if ops.len() == 0 {
        0
    } else {
        (match ops[0] {
            Op::Insert(_) => 1int,
            Op::Remove(_) => 0int,
        }) + insert_count(ops.drop_first())
    }
}

/// Some operation of `ops` removes `id`.
pub open spec fn removes(ops: Seq<Op>, id: EntryId) -> bool {
    exists|i: int| 0 <= i < ops.len() && (#[trigger] ops[i]) == Op::Remove(id)
}

/// The insertions of `ops`, paired with the identity each one is assigned
/// when the counter starts at `next`, restricted to those never removed by
/// a later operation, in insertion order.
pub open spec fn surviving_insertions(next: EntryId, ops: Seq<Op>) -> Seq<(EntryId, Ticket)>
    decreases ops.len(),
{
    if ops.len() == 0 {
        Seq::<(EntryId, Ticket)>::empty()
    } else {
        match ops[0] {
            Op::Insert(t) => if removes(ops.drop_first(), next) {
                surviving_insertions(bump(next), ops.drop_first())
            } else {
                seq![(next, t)] + surviving_insertions(bump(next), ops.drop_first())
            },
            Op::Remove(_) => surviving_insertions(next, ops.drop_first()),
        }
    }
}

/// Whether `ops` has a first operation that removes `id`: splitting form of
/// `removes`.
proof fn lemma_removes_split(ops: Seq<Op>, id: EntryId)
    requires
        ops.len() > 0,
    ensures
        removes(ops, id) == (ops[0] == Op::Remove(id) || removes(ops.drop_first(), id)),
{
    if ops[0] == Op::Remove(id) {
        assert(removes(ops, id));
    }
    if removes(ops.drop_first(), id) {
        let i = choose|i: int|
            0 <= i < ops.drop_first().len() && (#[trigger] ops.drop_first()[i]) == Op::Remove(id);
        assert(ops[i + 1] == Op::Remove(id));
    }
    if removes(ops, id) && ops[0] != Op::Remove(id) {
        let i = choose|i: int| 0 <= i < ops.len() && (#[trigger] ops[i]) == Op::Remove(id);
        assert(ops.drop_first()[i - 1] == Op::Remove(id));
    }
}

/// Filtering keeps the same entries under two predicates that agree on
/// every element of the sequence.
proof fn lemma_filter_agree_on(
    s: Seq<(EntryId, Ticket)>,
    p: spec_fn((EntryId, Ticket)) -> bool,
    q: spec_fn((EntryId, Ticket)) -> bool,
)
    requires
        forall|i: int| 0 <= i < s.len() ==> p(#[trigger] s[i]) == q(s[i]),
    ensures
        s.filter(p) == s.filter(q),
    decreases s.len(),
{
    reveal(Seq::filter);
    if s.len() > 0 {
        assert(forall|i: int|
            0 <= i < s.drop_last().len() ==> s.drop_last()[i] == (#[trigger] s[i]));
        lemma_filter_agree_on(s.drop_last(), p, q);
        assert(p(s.last()) == q(s.last()));
    }
}

/// Filtering a sequence extended by one element.
proof fn lemma_filter_push(
    s: Seq<(EntryId, Ticket)>,
    x: (EntryId, Ticket),
    p: spec_fn((EntryId, Ticket)) -> bool,
)
    ensures
        s.push(x).filter(p) == if p(x) {
            s.filter(p).push(x)
        } else {
            s.filter(p)
        },
{
    reveal(Seq::filter);
    assert(s.push(x).drop_last() =~= s);
    assert(s.push(x).last() == x);
}

/// With distinct ids, deleting the entry carrying `id0` and then filtering
/// is the same as filtering with the extra demand that the id is not `id0`.
proof fn lemma_remove_id_then_filter(
    s: Seq<(EntryId, Ticket)>,
    id0: EntryId,
    p: spec_fn((EntryId, Ticket)) -> bool,
    q: spec_fn((EntryId, Ticket)) -> bool,
)
    requires
        ids_distinct(s),
        forall|x: (EntryId, Ticket)| #[trigger] q(x) == (p(x) && x.0 != id0),
    ensures
        remove_id(s, id0).filter(p) == s.filter(q),
{
    broadcast use Seq::filter_distributes_over_add;

    if has_id(s, id0) {
        lemma_first_index_exists(s, id0);
        let i = choose|i: int|
            0 <= i < s.len() && (#[trigger] s[i]).0 == id0 && forall|j: int|
                0 <= j < i ==> (#[trigger] s[j]).0 != id0;
        lemma_remove_id_at(s, id0, i);
        let before = s.subrange(0, i);
        let at = seq![s[i]];
        let after = s.subrange(i + 1, s.len() as int);
        assert(s =~= before + at + after);
        assert(s.remove(i) =~= before + after);
        assert(remove_id(s, id0).filter(p) == before.filter(p) + after.filter(p));
        assert(s.filter(q) == before.filter(q) + at.filter(q) + after.filter(q));
        assert(at.filter(q) =~= Seq::<(EntryId, Ticket)>::empty()) by {
            reveal_with_fuel(Seq::filter, 2);
            assert(!q(s[i]));
            assert(at.drop_last() =~= Seq::<(EntryId, Ticket)>::empty());
            assert(at.last() == s[i]);
        }
        assert(forall|j: int| 0 <= j < before.len() ==> (#[trigger] before[j]) == s[j]);
        assert(forall|j: int|
            0 <= j < after.len() ==> (#[trigger] after[j]) == s[j + i + 1]);
        assert(forall|j: int| 0 <= j < before.len() ==> p(#[trigger] before[j]) == q(before[j]));
        assert(forall|j: int| 0 <= j < after.len() ==> p(#[trigger] after[j]) == q(after[j]));
        lemma_filter_agree_on(before, p, q);
        lemma_filter_agree_on(after, p, q);
        assert(remove_id(s, id0).filter(p) =~= s.filter(q));
    } else {
        lemma_remove_id_absent(s, id0);
        assert(forall|j: int| 0 <= j < s.len() ==> (#[trigger] s[j]).0 != id0);
        assert(forall|j: int| 0 <= j < s.len() ==> p(#[trigger] s[j]) == q(s[j]));
        lemma_filter_agree_on(s, p, q);
    }
}

/// Law: after any sequence of insert and remove operations, the entries in
/// display order are exactly the initial entries never removed, followed by
/// the insertions never removed afterwards, in original insertion order.
/// Removals never reorder the survivors.
pub proof fn lemma_insert_remove_order(
    entries: Seq<(EntryId, Ticket)>,
    next: EntryId,
    ops: Seq<Op>,
)
    requires
        ids_below(entries, next),
        ids_distinct(entries),
        next + insert_count(ops) <= EntryId::MAX,
    ensures
        replay((entries, next), ops).0 == entries.filter(
            (|e: (EntryId, Ticket)| !removes(ops, e.0)),
        ) + surviving_insertions(next, ops),
    decreases ops.len(),
{
    let p_ops = |e: (EntryId, Ticket)| !removes(ops, e.0);
    if ops.len() == 0 {
        assert(entries.filter(p_ops) == entries) by {
            assert(forall|i: int| 0 <= i < entries.len() ==> p_ops(#[trigger] entries[i]));
            lemma_filter_all(entries, p_ops);
        }
        assert(replay((entries, next), ops).0 =~= entries.filter(p_ops) + surviving_insertions(
            next,
            ops,
        ));
    } else {
        let rest = ops.drop_first();
        let p_rest = |e: (EntryId, Ticket)| !removes(rest, e.0);
        assert(insert_count(rest) >= 0) by {
            lemma_insert_count_nonneg(rest);
        }
        match ops[0] {
            Op::Insert(t) => {
                assert(next < EntryId::MAX);
                let next1 = bump(next);
                let pushed = entries.push((next, t));
                assert(ids_below(pushed, next1));
                assert(ids_distinct(pushed)) by {
                    assert(forall|i: int|
                        0 <= i < entries.len() ==> (#[trigger] pushed[i]) == entries[i]);
                    assert(pushed[entries.len() as int].0 == next);
                }
                lemma_insert_remove_order(pushed, next1, rest);
                assert(replay((entries, next), ops).0 == pushed.filter(p_rest)
                    + surviving_insertions(next1, rest));
                lemma_filter_push(entries, (next, t), p_rest);
                assert(forall|id: EntryId| removes(ops, id) == #[trigger] removes(rest, id)) by {
                    assert forall|id: EntryId|
                        removes(ops, id) == #[trigger] removes(rest, id) by {
                        lemma_removes_split(ops, id);
                    }
                }
                assert(forall|i: int|
                    0 <= i < entries.len() ==> p_ops(#[trigger] entries[i]) == p_rest(
                        entries[i],
                    ));
                lemma_filter_agree_on(entries, p_ops, p_rest);
                if removes(rest, next) {
                    assert(!p_rest((next, t)));
                    assert(surviving_insertions(next, ops) == surviving_insertions(next1, rest));
                    assert(replay((entries, next), ops).0 =~= entries.filter(p_ops)
                        + surviving_insertions(next, ops));
                } else {
                    assert(p_rest((next, t)));
                    assert(surviving_insertions(next, ops) == seq![(next, t)]
                        + surviving_insertions(next1, rest));
                    assert(replay((entries, next), ops).0 =~= entries.filter(p_ops)
                        + surviving_insertions(next, ops));
                }
            },
            Op::Remove(id0) => {
                lemma_remove_id_wf(entries, id0, next);
                lemma_insert_remove_order(remove_id(entries, id0), next, rest);
                assert(replay((entries, next), ops).0 == remove_id(entries, id0).filter(p_rest)
                    + surviving_insertions(next, rest));
                let q = |e: (EntryId, Ticket)| p_rest(e) && e.0 != id0;
                lemma_remove_id_then_filter(entries, id0, p_rest, q);
                assert(forall|i: int|
                    0 <= i < entries.len() ==> q(#[trigger] entries[i]) == p_ops(entries[i]))
                    by {
                    assert forall|i: int|
                        0 <= i < entries.len() implies q(#[trigger] entries[i]) == p_ops(
                        entries[i],
                    ) by {
                        lemma_removes_split(ops, entries[i].0);
                    }
                }
                lemma_filter_agree_on(entries, q, p_ops);
                assert(surviving_insertions(next, ops) == surviving_insertions(next, rest));
                assert(replay((entries, next), ops).0 =~= entries.filter(p_ops)
                    + surviving_insertions(next, ops));
            },
        }
    }
}

/// A filter that keeps every element of the sequence keeps the sequence.
proof fn lemma_filter_all(s: Seq<(EntryId, Ticket)>, p: spec_fn((EntryId, Ticket)) -> bool)
    requires
        forall|i: int| 0 <= i < s.len() ==> p(#[trigger] s[i]),
    ensures
        s.filter(p) == s,
    decreases s.len(),
{
    reveal(Seq::filter);
    if s.len() > 0 {
        assert(forall|i: int|
            0 <= i < s.drop_last().len() ==> s.drop_last()[i] == (#[trigger] s[i]));
        lemma_filter_all(s.drop_last(), p);
        assert(s.filter(p) =~= s);
    }
}

/// The number of insertions is never negative.
proof fn lemma_insert_count_nonneg(ops: Seq<Op>)
    ensures
        insert_count(ops) >= 0,
    decreases ops.len(),
{
    if ops.len() > 0 {
        lemma_insert_count_nonneg(ops.drop_first());
    }
}

/// Deleting at the first index carrying `id` is what `remove_id` means.
proof fn lemma_remove_id_at(s: Seq<(EntryId, Ticket)>, id: EntryId, i: int)
    requires
        0 <= i < s.len(),
        s[i].0 == id,
        forall|j: int| 0 <= j < i ==> (#[trigger] s[j]).0 != id,
    ensures
        remove_id(s, id) == s.remove(i),
    decreases i,
{
    if i == 0 {
        assert(remove_id(s, id) =~= s.remove(0));
    } else {
        lemma_remove_id_at(s.drop_first(), id, i - 1);
        assert(s.drop_first().remove(i - 1) =~= s.remove(i).drop_first());
        assert(remove_id(s, id) =~= s.remove(i));
    }
}

/// When no entry carries `id`, `remove_id` leaves the sequence unchanged.
proof fn lemma_remove_id_absent(s: Seq<(EntryId, Ticket)>, id: EntryId)
    requires
        !has_id(s, id),
    ensures
        remove_id(s, id) == s,
    decreases s.len(),
{
    if s.len() > 0 {
        assert(s[0].0 != id);
        assert(!has_id(s.drop_first(), id)) by {
            assert(forall|i: int|
                0 <= i < s.drop_first().len() ==> s.drop_first()[i] == s[i + 1]);
        }
        lemma_remove_id_absent(s.drop_first(), id);
        assert(remove_id(s, id) =~= s);
    }
}

/// `remove_id` preserves id bounds and distinctness.
proof fn lemma_remove_id_wf(s: Seq<(EntryId, Ticket)>, id: EntryId, bound: EntryId)
    requires
        ids_below(s, bound),
        ids_distinct(s),
    ensures
        ids_below(remove_id(s, id), bound),
        ids_distinct(remove_id(s, id)),
    decreases s.len(),
{
    if s.len() > 0 && s[0].0 != id {
        lemma_remove_id_wf(s.drop_first(), id, bound);
        let r = seq![s[0]] + remove_id(s.drop_first(), id);
        assert forall|i: int| 0 <= i < r.len() implies (#[trigger] r[i]).0 < bound by {
            if i > 0 {
                lemma_remove_id_membership(s.drop_first(), id, i - 1);
            }
        }
        assert forall|i: int, j: int| 0 <= i < j < r.len() implies (#[trigger] r[i]).0 != (
        #[trigger] r[j]).0 by {
            lemma_remove_id_membership(s.drop_first(), id, j - 1);
            if i > 0 {
                lemma_remove_id_membership(s.drop_first(), id, i - 1);
            }
        }
    }
}

/// Every entry of `remove_id(s, id)` is an entry of `s`.
proof fn lemma_remove_id_membership(s: Seq<(EntryId, Ticket)>, id: EntryId, i: int)
    requires
        0 <= i < remove_id(s, id).len(),
    ensures
        exists|k: int| 0 <= k < s.len() && #[trigger] s[k] == remove_id(s, id)[i],
    decreases s.len(),
{
    if s.len() == 0 {
    } else if s[0].0 == id {
        assert(s[i + 1] == remove_id(s, id)[i]);
    } else {
        if i == 0 {
            assert(s[0] == remove_id(s, id)[0]);
        } else {
            lemma_remove_id_membership(s.drop_first(), id, i - 1);
            let k = choose|k: int|
                0 <= k < s.drop_first().len() && #[trigger] s.drop_first()[k] == remove_id(
                    s.drop_first(),
                    id,
                )[i - 1];
            assert(s[k + 1] == remove_id(s, id)[i]);
        }
    }
}

/// Replacing at the first index carrying `id` is what `update_id` means.
proof fn lemma_update_id_at(s: Seq<(EntryId, Ticket)>, id: EntryId, t: Ticket, i: int)
    requires
        0 <= i < s.len(),
        s[i].0 == id,
        forall|j: int| 0 <= j < i ==> (#[trigger] s[j]).0 != id,
    ensures
        update_id(s, id, t) == s.update(i, (id, t)),
    decreases i,
{
    if i == 0 {
        assert(update_id(s, id, t) =~= s.update(0, (id, t)));
    } else {
        lemma_update_id_at(s.drop_first(), id, t, i - 1);
        assert(s.drop_first().update(i - 1, (id, t)) =~= s.update(i, (id, t)).drop_first());
        assert(update_id(s, id, t) =~= s.update(i, (id, t)));
    }
}

/// When no entry carries `id`, `update_id` leaves the sequence unchanged.
proof fn lemma_update_id_absent(s: Seq<(EntryId, Ticket)>, id: EntryId, t: Ticket)
    requires
        !has_id(s, id),
    ensures
        update_id(s, id, t) == s,
    decreases s.len(),
{
    if s.len() > 0 {
        assert(s[0].0 != id);
        assert(!has_id(s.drop_first(), id)) by {
            assert(forall|i: int|
                0 <= i < s.drop_first().len() ==> s.drop_first()[i] == s[i + 1]);
        }
        lemma_update_id_absent(s.drop_first(), id, t);
        assert(update_id(s, id, t) =~= s);
    }
}

/// `update_id` preserves id bounds and distinctness: it keeps every id in
/// place.
proof fn lemma_update_id_wf(s: Seq<(EntryId, Ticket)>, id: EntryId, t: Ticket, bound: EntryId)
    requires
        ids_below(s, bound),
        ids_distinct(s),
        has_id(s, id),
    ensures
        ids_below(update_id(s, id, t), bound),
        ids_distinct(update_id(s, id, t)),
{
    let i = choose|i: int|
        0 <= i < s.len() && (#[trigger] s[i]).0 == id && forall|j: int|
            0 <= j < i ==> (#[trigger] s[j]).0 != id;
    assert(exists|i: int|
        0 <= i < s.len() && (#[trigger] s[i]).0 == id && forall|j: int|
            0 <= j < i ==> (#[trigger] s[j]).0 != id) by {
        lemma_first_index_exists(s, id);
    }
    lemma_update_id_at(s, id, t, i);
    assert(update_id(s, id, t) =~= s.update(i, (id, t)));
}

/// When some entry carries `id` there is a first index that does.
proof fn lemma_first_index_exists(s: Seq<(EntryId, Ticket)>, id: EntryId)
    requires
        has_id(s, id),
    ensures
        exists|i: int|
            0 <= i < s.len() && (#[trigger] s[i]).0 == id && forall|j: int|
                0 <= j < i ==> (#[trigger] s[j]).0 != id,
    decreases s.len(),
{
    if s[0].0 == id {
        assert(0 <= 0 < s.len() && s[0].0 == id && forall|j: int| 0 <= j < 0 ==> s[j].0 != id);
    } else {
        let w = choose|i: int| 0 <= i < s.len() && (#[trigger] s[i]).0 == id;
        assert(s.drop_first()[w - 1].0 == id);
        lemma_first_index_exists(s.drop_first(), id);
        let i = choose|i: int|
            0 <= i < s.drop_first().len() && (#[trigger] s.drop_first()[i]).0 == id && forall|
                j: int,
            | 0 <= j < i ==> (#[trigger] s.drop_first()[j]).0 != id;
        assert(s[i + 1].0 == id);
        assert forall|j: int| 0 <= j < i + 1 implies (#[trigger] s[j]).0 != id by {
            if j > 0 {
                assert(s.drop_first()[j - 1] == s[j]);
            }
        }
    }
}

} // verus!
