use vstd::prelude::*;

verus! {

/// One statement of the transaction that replaces a dataset in the relational store.
#[derive(Clone, Copy, Debug, PartialEq, Eq, Structural)]
pub enum Step {
    /// Delete every row of the dataset's table.
    DeleteAll,
    /// Insert the item at this index, under a fresh identifier.
    Insert(usize),
    /// Record the time of this update for the dataset.
    RecordUpdate,
    /// Commit the transaction.
    Commit,
}

/// The `k`-th statement of the transaction that replaces a dataset by `count`
/// items: delete all, insert each item in order, record the update, commit.
pub open spec fn step_at(count: nat, k: nat) -> Step {
    if k == 0 {
        Step::DeleteAll
    } else if k <= count {
        Step::Insert((k - 1) as usize)
    } else if k == count + 1 {
        Step::RecordUpdate
    } else {
        Step::Commit
    }
}

/// What the store holds during a transaction: the rows that readers see, the rows
/// that the transaction sees, and whether the update was recorded.
pub struct Tables<T> {
    pub visible: Seq<T>,
    pub pending: Seq<T>,
    pub recorded: bool,
}

/// The effect of one statement that succeeded.
pub open spec fn apply_step<T>(s: Tables<T>, step: Step, items: Seq<T>) -> Tables<T> {
    match step {
        Step::DeleteAll => Tables { visible: s.visible, pending: Seq::empty(), recorded: s.recorded },
        Step::Insert(i) => Tables {
            visible: s.visible,
            pending: s.pending.push(items[i as int]),
            recorded: s.recorded,
        },
        Step::RecordUpdate => Tables { visible: s.visible, pending: s.pending, recorded: true },
        Step::Commit => Tables { visible: s.pending, pending: s.pending, recorded: s.recorded },
    }
}

/// The store after the first `k` statements of the transaction succeeded, starting
/// from a store that shows `old`. A statement that fails rolls the transaction back,
/// which leaves what readers see as it was after those `k`.
pub open spec fn after_steps<T>(old: Seq<T>, items: Seq<T>, k: nat) -> Tables<T>
    decreases k,
{
    if k == 0 {
        Tables { visible: old, pending: old, recorded: false }
    } else {
        apply_step(after_steps(old, items, (k - 1) as nat), step_at(items.len(), (k - 1) as nat), items)
    }
}

/// Number of statements of the transaction for `count` items.
pub open spec fn step_count(count: nat) -> nat {
    count + 3
}

/// The progress of one update of a dataset in the relational store: which statement
/// comes next, and whether one failed.
#[derive(Clone, Copy, Debug, PartialEq, Eq, Structural)]
pub struct UpdateSession {
    pub count: usize,
    pub done: usize,
    pub failed: bool,
}

impl UpdateSession {
    pub open spec fn wf(self) -> bool {
        &&& self.count + 3 <= usize::MAX
        &&& self.done <= step_count(self.count as nat)
    }

    pub open spec fn next_spec(self) -> Option<Step> {
        if self.failed || self.done >= step_count(self.count as nat) {
            None
        } else {
            Some(step_at(self.count as nat, self.done as nat))
        }
    }

    /// A session that replaces a dataset by `count` items.
    pub fn new(count: usize) -> (r: UpdateSession)
        requires
            count + 3 <= usize::MAX,
        ensures
            r.wf(),
            r.count == count,
            r.done == 0,
            !r.failed,
    {
        UpdateSession { count, done: 0, failed: false }
    }

    /// The statement to run next, or `None` once the session is over.
    pub fn next_step(&self) -> (r: Option<Step>)
        requires
            self.wf(),
        ensures
            r == self.next_spec(),
    {
        if self.failed || self.done >= self.count + 3 {
            None
        } else if self.done == 0 {
            Some(Step::DeleteAll)
        } else if self.done <= self.count {
            Some(Step::Insert(self.done - 1))
        } else if self.done == self.count + 1 {
            Some(Step::RecordUpdate)
        } else {
            Some(Step::Commit)
        }
    }

    /// Takes note of the outcome of the statement that `next_step` gave.
    pub fn record(&mut self, succeeded: bool)
        requires
            old(self).wf(),
            old(self).next_spec() is Some,
        ensures
            final(self).wf(),
            final(self).count == old(self).count,
            succeeded ==> final(self).done == old(self).done + 1 && !final(self).failed,
            !succeeded ==> final(self).done == old(self).done && final(self).failed,
    {
        if succeeded {
            self.done = self.done + 1;
        } else {
            self.failed = true;
        }
    }

    /// Every statement succeeded, the commit included.
    pub fn is_committed(&self) -> (r: bool)
        requires
            self.wf(),
        ensures
            r == (!self.failed && self.done == step_count(self.count as nat)),
    {
        !self.failed && self.done == self.count + 3
    }
}

/// While the transaction is open, readers see the old rows, and the transaction sees
/// the items inserted so far.
pub proof fn lemma_open_transaction<T>(old: Seq<T>, items: Seq<T>, k: nat)
    requires
        k < step_count(items.len()),
        items.len() <= usize::MAX,
    ensures
        after_steps(old, items, k).visible == old,
        1 <= k <= items.len() + 1 ==> after_steps(old, items, k).pending == items.take(k - 1),
    decreases k,
{
    if k > 0 {
        lemma_open_transaction(old, items, (k - 1) as nat);
        if k >= 2 && k <= items.len() + 1 {
            assert(items.take(k - 2).push(items[k - 2]) =~= items.take(k - 1));
        }
        if k == 1 {
            assert(items.take(0) =~= Seq::<T>::empty());
        }
    }
}

/// Round trip: once every statement of the session succeeded, readers see exactly
/// the items, in order.
pub proof fn lemma_update_round_trip<T>(old: Seq<T>, items: Seq<T>)
    requires
        items.len() <= usize::MAX,
    ensures
        after_steps(old, items, step_count(items.len())).visible == items,
        after_steps(old, items, step_count(items.len())).recorded,
{
    let n = items.len();
    lemma_open_transaction(old, items, n + 2);
    lemma_open_transaction(old, items, n + 1);
    assert(items.take(n as int) =~= items);
}

/// Atomicity: a session that stops at a failed statement, whichever it is, leaves
/// readers seeing the old rows; only the full session changes what they see.
pub proof fn lemma_update_atomic<T>(old: Seq<T>, items: Seq<T>, s: UpdateSession)
    requires
        s.wf(),
        s.count == items.len(),
    ensures
        after_steps(old, items, s.done as nat).visible == if s.done == step_count(items.len()) {
            items
        } else {
            old
        },
{
    if s.done == step_count(items.len()) {
        lemma_update_round_trip(old, items);
    } else {
        lemma_open_transaction(old, items, s.done as nat);
    }
}

} // verus!
