//! Bounded dual-limit ledger of reversible history.
//!
//! The ledger keeps (perform, reverse) event pairs under two independent
//! resource limits: an entry count bound and a strict cumulative payload
//! bound. When a new entry arrives, the oldest entries are evicted from the
//! front until both limits admit it; any new forward action discards the
//! redo history, enforcing a single linear timeline.

use vstd::prelude::*;
use std::collections::VecDeque;
use crate::events::{Event, spec_payload_size};

verus! {

/// Entry count the default ledger is allowed to track.
pub const DEFAULT_EVENT_LIMIT: usize = 1 << 16;

/// Payload size the default ledger is allowed to store.
pub const DEFAULT_PAYLOAD_LIMIT: usize = 1 << 28;

/// One item of reversible history: the event that performed the action and
/// the event that reverses it.
#[derive(Clone, Debug, PartialEq, Eq)]
pub struct UndoStackEntry {
    pub perform_action: Event,
    pub reverse_action: Event,
}

/// Payload size an entry accounts for: the sizes of both its events summed.
pub open spec fn spec_entry_size(e: UndoStackEntry) -> nat {
    spec_payload_size(e.perform_action) + spec_payload_size(e.reverse_action)
}

/// Cumulative payload size of a sequence of entries.
pub open spec fn stack_size(s: Seq<UndoStackEntry>) -> nat
    decreases s.len(),
{
    if s.len() == 0 {
        0
    } else {
        spec_entry_size(s.first()) + stack_size(s.drop_first())
    }
}

pub proof fn lemma_stack_size_push(s: Seq<UndoStackEntry>, e: UndoStackEntry)
    ensures
        stack_size(s.push(e)) == stack_size(s) + spec_entry_size(e),
    decreases s.len(),
{
    if s.len() == 0 {
        assert(s.push(e).first() == e);
        assert(s.push(e).drop_first() =~= Seq::<UndoStackEntry>::empty());
        assert(stack_size(s.push(e).drop_first()) == 0);
    } else {
        assert(s.push(e).first() == s.first());
        assert(s.push(e).drop_first() =~= s.drop_first().push(e));
        lemma_stack_size_push(s.drop_first(), e);
        assert(stack_size(s.push(e)) == spec_entry_size(s.first()) + stack_size(
            s.drop_first().push(e),
        ));
    }
}

pub proof fn lemma_stack_size_drop_last(s: Seq<UndoStackEntry>)
    requires
        s.len() > 0,
    ensures
        stack_size(s) == stack_size(s.drop_last()) + spec_entry_size(s.last()),
{
    assert(s =~= s.drop_last().push(s.last()));
    lemma_stack_size_push(s.drop_last(), s.last());
}

/// Result of evicting front entries while the entry count meets or exceeds
/// the count limit (dropping stops early on an empty sequence).
pub open spec fn evict_for_count(s: Seq<UndoStackEntry>, limit: nat) -> Seq<UndoStackEntry>
    decreases s.len(),
{
    if s.len() >= limit && s.len() > 0 {
        evict_for_count(s.drop_first(), limit)
    } else {
        s
    }
}

/// Result of evicting front entries while the cumulative payload plus the
/// incoming entry's size meets or exceeds the payload limit.
pub open spec fn evict_for_payload(s: Seq<UndoStackEntry>, limit: nat, add: nat) -> Seq<
    UndoStackEntry,
>
    decreases s.len(),
{
    if stack_size(s) + add >= limit && s.len() > 0 {
        evict_for_payload(s.drop_first(), limit, add)
    } else {
        s
    }
}

/// The undo entries that remain once a new entry of payload size `add`
/// has forced both eviction passes.
pub open spec fn do_action_evicted(
    s: Seq<UndoStackEntry>,
    event_limit: nat,
    payload_limit: nat,
    add: nat,
) -> Seq<UndoStackEntry> {
    evict_for_payload(evict_for_count(s, event_limit), payload_limit, add)
}

/// Whether, after both eviction passes, the new entry is admitted.
pub open spec fn do_action_admits(
    s: Seq<UndoStackEntry>,
    event_limit: nat,
    payload_limit: nat,
    add: nat,
) -> bool {
    let t = do_action_evicted(s, event_limit, payload_limit, add);
    t.len() < event_limit && stack_size(t) + add < payload_limit
}

/// The ledger: oldest entries at the front of `undo_stack`.
///
/// `current_payload_size` tracks only the undo side; entries move to
/// `redo_stack` after a payload check and return from it through `redo_action`,
/// and the redo side is erased by every new forward action, so the combined
/// payload of both sides stays below the limit regardless.
pub struct UndoStack {
    pub event_limit: usize,
    pub payload_limit: usize,
    pub current_payload_size: usize,
    pub undo_stack: VecDeque<UndoStackEntry>,
    pub redo_stack: VecDeque<UndoStackEntry>,
}

impl UndoStack {
    /// Well-formedness: the payload counter is exact, entry counts stay within
    /// the count limit, and cumulative payload stays strictly below the
    /// payload limit (a zero payload limit admits no entry at all).
    pub open spec fn wf(self) -> bool {
        &&& self.current_payload_size == stack_size(self.undo_stack@)
        &&& self.undo_stack@.len() + self.redo_stack@.len() <= self.event_limit
        &&& if self.payload_limit == 0 {
            self.undo_stack@.len() == 0 && self.redo_stack@.len() == 0
        } else {
            stack_size(self.undo_stack@) + stack_size(self.redo_stack@) < self.payload_limit
        }
    }

    /// Empty ledger bounded by `event_limit` entries and, strictly, by
    /// `payload_limit` cumulative payload.
    pub fn new(event_limit: usize, payload_limit: usize) -> (r: UndoStack)
        ensures
            r.wf(),
            r.event_limit == event_limit,
            r.payload_limit == payload_limit,
            r.undo_stack@ =~= Seq::<UndoStackEntry>::empty(),
            r.redo_stack@ =~= Seq::<UndoStackEntry>::empty(),
    {
        UndoStack {
            event_limit,
            payload_limit,
            current_payload_size: 0,
            undo_stack: VecDeque::new(),
            redo_stack: VecDeque::new(),
        }
    }

    /// The number of actions that can be un-done.
    pub fn undo_len(&self) -> (r: usize)
        ensures
            r == self.undo_stack@.len(),
    {
        self.undo_stack.len()
    }

    /// The number of actions that can be re-done.
    pub fn redo_len(&self) -> (r: usize)
        ensures
            r == self.redo_stack@.len(),
    {
        self.redo_stack.len()
    }

    /// Record a new (perform, reverse) pair.
    ///
    /// The redo side is erased unconditionally; front entries are then evicted
    /// while either limit is exceeded, and the pair is stored only if both
    /// limits finally admit it. `false` means the pair was not recorded (the
    /// action itself already happened; only its history is forfeited), which
    /// can only follow from a zero entry limit or a pair whose own payload
    /// reaches the payload limit.
    #[must_use]
    pub fn do_action(&mut self, perform: Event, reverse: Event) -> (r: bool)
        requires
            old(self).wf(),
        ensures
            final(self).wf(),
            final(self).event_limit == old(self).event_limit,
            final(self).payload_limit == old(self).payload_limit,
            final(self).redo_stack@ =~= Seq::<UndoStackEntry>::empty(),
            ({
                let add = spec_payload_size(perform) + spec_payload_size(reverse);
                let evicted = do_action_evicted(
                    old(self).undo_stack@,
                    old(self).event_limit as nat,
                    old(self).payload_limit as nat,
                    add,
                );
                let entry = UndoStackEntry { perform_action: perform, reverse_action: reverse };
                &&& r == do_action_admits(
                    old(self).undo_stack@,
                    old(self).event_limit as nat,
                    old(self).payload_limit as nat,
                    add,
                )
                &&& final(self).undo_stack@ == if r {
                    evicted.push(entry)
                } else {
                    evicted
                }
            }),
            final(self).undo_stack@.len() <= final(self).event_limit,
            final(self).payload_limit > 0 ==> final(self).current_payload_size < final(self).payload_limit,
            old(self).event_limit == 0 ==> r == false && final(self).undo_stack@.len() == 0,
            spec_payload_size(perform) + spec_payload_size(reverse) >= old(self).payload_limit
                ==> r == false,
    {
        self.redo_stack.clear();

        // Drop events that are over limit (first event limit, then payload limit).
        let ghost undo0 = self.undo_stack@;
        while self.undo_stack.len() >= self.event_limit && self.undo_stack.len() > 0
            invariant
                self.event_limit == old(self).event_limit,
                self.payload_limit == old(self).payload_limit,
                self.redo_stack@ =~= Seq::<UndoStackEntry>::empty(),
                self.current_payload_size == stack_size(self.undo_stack@),
                evict_for_count(self.undo_stack@, self.event_limit as nat) == evict_for_count(
                    undo0,
                    self.event_limit as nat,
                ),
                self.undo_stack@.len() <= undo0.len(),
                stack_size(self.undo_stack@) <= stack_size(undo0),
            decreases self.undo_stack@.len(),
        {
            let _ = self.drop_front_entry();
        }
        let ghost undo1 = self.undo_stack@;
        proof {
            assert(undo1 == evict_for_count(undo0, self.event_limit as nat));
        }

        let perform_size = perform.payload_size();
        let reverse_size = reverse.payload_size();
        let additional = perform_size.checked_add(reverse_size);
        let ghost add = spec_payload_size(perform) + spec_payload_size(reverse);
        // `add_low` stands in for the mathematical pair size in limit
        // comparisons: when the sum overflows, the pair exceeds every
        // possible payload limit anyway.
        let add_low: usize = match additional {
            Some(a) => a,
            None => usize::MAX,
        };

        while add_low >= self.payload_limit - self.current_payload_size
            && self.undo_stack.len() > 0
            invariant
                add <= usize::MAX ==> add_low == add,
                add > usize::MAX ==> add_low == usize::MAX,
                self.event_limit == old(self).event_limit,
                self.payload_limit == old(self).payload_limit,
                self.redo_stack@ =~= Seq::<UndoStackEntry>::empty(),
                self.current_payload_size == stack_size(self.undo_stack@),
                self.current_payload_size <= self.payload_limit,
                evict_for_payload(self.undo_stack@, self.payload_limit as nat, add)
                    == evict_for_payload(undo1, self.payload_limit as nat, add),
                self.undo_stack@.len() <= undo1.len(),
                stack_size(self.undo_stack@) <= stack_size(undo1),
            decreases self.undo_stack@.len(),
        {
            proof {
                assert(stack_size(self.undo_stack@) + add >= self.payload_limit);
            }
            let _ = self.drop_front_entry();
        }
        let ghost undo2 = self.undo_stack@;
        proof {
            assert(undo2 == evict_for_payload(undo1, self.payload_limit as nat, add));
        }

        // Re-check admission: either rejection is possible only in a
        // degenerate case (zero entry limit, or a pair at least as large as
        // the payload limit).
        if self.undo_stack.len() >= self.event_limit {
            return false;
        }
        if add_low >= self.payload_limit - self.current_payload_size {
            return false;
        }

        let entry = UndoStackEntry { perform_action: perform, reverse_action: reverse };
        proof {
            lemma_stack_size_push(self.undo_stack@, entry);
        }
        self.undo_stack.push_back(entry);
        self.current_payload_size = self.current_payload_size + add_low;

        true
    }

    /// Move the newest undo entry to the redo side and return its reverse
    /// event, or return nothing when there is no action to undo.
    #[must_use]
    pub fn undo_action(&mut self) -> (r: Option<Event>)
        requires
            old(self).wf(),
        ensures
            final(self).wf(),
            final(self).event_limit == old(self).event_limit,
            final(self).payload_limit == old(self).payload_limit,
            old(self).undo_stack@.len() == 0 ==> r is None && final(self).undo_stack@ == old(self).undo_stack@ && final(self).redo_stack@ == old(self).redo_stack@,
            old(self).undo_stack@.len() > 0 ==> {
                let entry = old(self).undo_stack@.last();
                &&& r matches Some(ev) && ev@ == entry.reverse_action@
                &&& final(self).undo_stack@ == old(self).undo_stack@.drop_last()
                &&& final(self).redo_stack@ == old(self).redo_stack@.push(entry)
            },
    {
        let entry = match self.undo_stack.pop_back() {
            Some(entry) => entry,
            None => {
                return None;
            },
        };
        proof {
            lemma_stack_size_drop_last(old(self).undo_stack@);
        }
        let result = Some(entry.reverse_action.duplicate());
        self.current_payload_size = self.current_payload_size - entry.payload_size();
        proof {
            lemma_stack_size_push(old(self).redo_stack@, old(self).undo_stack@.last());
        }
        self.redo_stack.push_back(entry);
        result
    }

    /// Move the newest redo entry back to the undo side and return its
    /// perform event, or return nothing when there is no action to redo.
    #[must_use]
    pub fn redo_action(&mut self) -> (r: Option<Event>)
        requires
            old(self).wf(),
        ensures
            final(self).wf(),
            final(self).event_limit == old(self).event_limit,
            final(self).payload_limit == old(self).payload_limit,
            old(self).redo_stack@.len() == 0 ==> r is None && final(self).undo_stack@ == old(self).undo_stack@ && final(self).redo_stack@ == old(self).redo_stack@,
            old(self).redo_stack@.len() > 0 ==> {
                let entry = old(self).redo_stack@.last();
                &&& r matches Some(ev) && ev@ == entry.perform_action@
                &&& final(self).undo_stack@ == old(self).undo_stack@.push(entry)
                &&& final(self).redo_stack@ == old(self).redo_stack@.drop_last()
            },
    {
        let entry = match self.redo_stack.pop_back() {
            Some(entry) => entry,
            None => {
                return None;
            },
        };
        proof {
            lemma_stack_size_drop_last(old(self).redo_stack@);
            lemma_stack_size_push(old(self).undo_stack@, old(self).redo_stack@.last());
        }
        let result = Some(entry.perform_action.duplicate());
        self.current_payload_size = self.current_payload_size + entry.payload_size();
        self.undo_stack.push_back(entry);
        result
    }

    /// Drop the oldest undo entry, keeping the payload counter exact.
    fn drop_front_entry(&mut self) -> (r: Option<UndoStackEntry>)
        requires
            old(self).current_payload_size == stack_size(old(self).undo_stack@),
        ensures
            final(self).event_limit == old(self).event_limit,
            final(self).payload_limit == old(self).payload_limit,
            final(self).redo_stack@ == old(self).redo_stack@,
            final(self).current_payload_size == stack_size(final(self).undo_stack@),
            old(self).undo_stack@.len() == 0 ==> r is None && final(self).undo_stack@ == old(self).undo_stack@,
            old(self).undo_stack@.len() > 0 ==> r == Some(old(self).undo_stack@.first()) && final(self).undo_stack@ == old(self).undo_stack@.drop_first(),
    {
        let entry = match self.undo_stack.pop_front() {
            Some(entry) => entry,
            None => {
                return None;
            },
        };
        proof {
            assert(old(self).undo_stack@.drop_first() =~= old(self).undo_stack@.subrange(
                1,
                old(self).undo_stack@.len() as int,
            ));
            assert(stack_size(old(self).undo_stack@) == spec_entry_size(entry) + stack_size(
                old(self).undo_stack@.drop_first(),
            ));
        }
        self.current_payload_size = self.current_payload_size - entry.payload_size();
        Some(entry)
    }
}

/// Entry bound: a well-formed ledger never tracks more undo entries than its
/// entry limit. Every operation of [`UndoStack`] keeps the ledger well
/// formed, so this holds after every call.
pub proof fn lemma_entry_bound(s: UndoStack)
    requires
        s.wf(),
    ensures
        s.undo_stack@.len() <= s.event_limit,
{
}

/// Payload bound: when the payload limit is nonzero, a well-formed ledger's
/// cumulative payload stays strictly below it. Every operation of
/// [`UndoStack`] keeps the ledger well formed, so this holds after every
/// call.
pub proof fn lemma_payload_bound(s: UndoStack)
    requires
        s.wf(),
        s.payload_limit > 0,
    ensures
        s.current_payload_size < s.payload_limit,
        s.current_payload_size == stack_size(s.undo_stack@),
{
}

impl UndoStackEntry {
    /// The sum of payload sizes for the pair of events this entry holds.
    pub fn payload_size(&self) -> (r: usize)
        requires
            spec_entry_size(*self) <= usize::MAX,
        ensures
            r == spec_entry_size(*self),
    {
        self.perform_action.payload_size() + self.reverse_action.payload_size()
    }
}

impl Default for UndoStack {
    /// An empty ledger with the default limits.
    fn default() -> (r: UndoStack)
        ensures
            r.wf(),
            r.event_limit == DEFAULT_EVENT_LIMIT,
            r.payload_limit == DEFAULT_PAYLOAD_LIMIT,
            r.undo_stack@ =~= Seq::<UndoStackEntry>::empty(),
            r.redo_stack@ =~= Seq::<UndoStackEntry>::empty(),
    {
        UndoStack::new(DEFAULT_EVENT_LIMIT, DEFAULT_PAYLOAD_LIMIT)
    }
}

} // verus!
