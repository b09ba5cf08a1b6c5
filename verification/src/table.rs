//! Identifier-keyed tables kept in ascending key order.
//!
//! Entities reference each other only through stable string identifiers, so
//! every state component stores its entities in one of these tables. Keeping
//! entries sorted by key makes the stored form canonical: re-inserting what
//! a removal took out rebuilds the table content exactly, which is what the
//! exact round-trip guarantees of the event protocol rest on.

use vstd::prelude::*;
use crate::text::{lex_lt, str_eq, str_lt, lemma_lex_lt_irrefl, lemma_lex_lt_connected,
    lemma_lex_lt_trans};

verus! {

/// One keyed entry.
#[derive(Clone, Debug, PartialEq, Eq)]
pub struct TableEntry<V> {
    pub key: String,
    pub val: V,
}

impl<V: View> View for TableEntry<V> {
    type V = (Seq<char>, V::V);

    open spec fn view(&self) -> (Seq<char>, V::V) {
        (self.key@, self.val@)
    }
}

/// A table of keyed entries in strictly ascending key order.
#[derive(Clone, Debug, PartialEq, Eq)]
pub struct Table<V> {
    pub entries: Vec<TableEntry<V>>,
}

impl<V: View> View for Table<V> {
    type V = Seq<(Seq<char>, V::V)>;

    open spec fn view(&self) -> Seq<(Seq<char>, V::V)> {
        self.entries@.map_values(|e: TableEntry<V>| e@)
    }
}

/// Strictly ascending keys (which also makes them unique).
pub open spec fn tbl_sorted<VV>(s: Seq<(Seq<char>, VV)>) -> bool {
    forall|i: int, j: int| 0 <= i < j < s.len() ==> lex_lt(#[trigger] s[i].0, #[trigger] s[j].0)
}

/// Whether some entry has key `k`.
pub open spec fn tbl_contains<VV>(s: Seq<(Seq<char>, VV)>, k: Seq<char>) -> bool
    decreases s.len(),
{
    if s.len() == 0 {
        false
    } else {
        s.first().0 == k || tbl_contains(s.drop_first(), k)
    }
}

/// The value stored at key `k`, if any (first match).
pub open spec fn tbl_get<VV>(s: Seq<(Seq<char>, VV)>, k: Seq<char>) -> Option<VV>
    decreases s.len(),
{
    if s.len() == 0 {
        None
    } else if s.first().0 == k {
        Some(s.first().1)
    } else {
        tbl_get(s.drop_first(), k)
    }
}

/// `s` with `(k, v)` inserted at its ordered position.
pub open spec fn tbl_insert<VV>(s: Seq<(Seq<char>, VV)>, k: Seq<char>, v: VV) -> Seq<
    (Seq<char>, VV),
>
    decreases s.len(),
{
    if s.len() == 0 || lex_lt(k, s.first().0) {
        seq![(k, v)] + s
    } else {
        seq![s.first()] + tbl_insert(s.drop_first(), k, v)
    }
}

/// `s` with the first entry keyed `k` taken out.
pub open spec fn tbl_remove<VV>(s: Seq<(Seq<char>, VV)>, k: Seq<char>) -> Seq<(Seq<char>, VV)>
    decreases s.len(),
{
    if s.len() == 0 {
        s
    } else if s.first().0 == k {
        s.drop_first()
    } else {
        seq![s.first()] + tbl_remove(s.drop_first(), k)
    }
}

/// `s` with the value at key `k` replaced by `v`.
pub open spec fn tbl_update<VV>(s: Seq<(Seq<char>, VV)>, k: Seq<char>, v: VV) -> Seq<
    (Seq<char>, VV),
>
    decreases s.len(),
{
    if s.len() == 0 {
        s
    } else if s.first().0 == k {
        seq![(k, v)] + s.drop_first()
    } else {
        seq![s.first()] + tbl_update(s.drop_first(), k, v)
    }
}

pub proof fn lemma_sorted_drop_first<VV>(s: Seq<(Seq<char>, VV)>)
    requires
        tbl_sorted(s),
        s.len() > 0,
    ensures
        tbl_sorted(s.drop_first()),
{
    let t = s.drop_first();
    assert forall|i: int, j: int| 0 <= i < j < t.len() implies lex_lt(
        #[trigger] t[i].0,
        #[trigger] t[j].0,
    ) by {
        assert(t[i] == s[i + 1]);
        assert(t[j] == s[j + 1]);
    }
}

/// A contained key sits at some index.
pub proof fn lemma_contains_index<VV>(s: Seq<(Seq<char>, VV)>, k: Seq<char>)
    requires
        tbl_contains(s, k),
    ensures
        exists|i: int| 0 <= i < s.len() && (#[trigger] s[i]).0 == k,
    decreases s.len(),
{
    if s.first().0 == k {
        assert(s[0].0 == k);
    } else {
        lemma_contains_index(s.drop_first(), k);
        let i = choose|i: int| 0 <= i < s.drop_first().len() && (#[trigger] s.drop_first()[i]).0
            == k;
        assert(s[i + 1] == s.drop_first()[i]);
    }
}

/// In a sorted table, a key contained past the front is above the front key.
pub proof fn lemma_sorted_contains_tail<VV>(s: Seq<(Seq<char>, VV)>, k: Seq<char>)
    requires
        tbl_sorted(s),
        s.len() > 0,
        tbl_contains(s.drop_first(), k),
    ensures
        lex_lt(s.first().0, k),
{
    lemma_contains_index(s.drop_first(), k);
    let i = choose|i: int| 0 <= i < s.drop_first().len() && (#[trigger] s.drop_first()[i]).0 == k;
    assert(s.drop_first()[i] == s[i + 1]);
    assert(lex_lt(s[0].0, s[i + 1].0));
}

/// What `tbl_insert` does to membership, lookups, order, and length.
pub proof fn lemma_insert_props<VV>(s: Seq<(Seq<char>, VV)>, k: Seq<char>, v: VV)
    requires
        tbl_sorted(s),
        !tbl_contains(s, k),
    ensures
        tbl_sorted(tbl_insert(s, k, v)),
        tbl_insert(s, k, v).len() == s.len() + 1,
        tbl_get(tbl_insert(s, k, v), k) == Some(v),
        forall|k2: Seq<char>| k2 != k ==> #[trigger] tbl_get(tbl_insert(s, k, v), k2) == tbl_get(
            s,
            k2,
        ),
        forall|k2: Seq<char>| #[trigger] tbl_contains(tbl_insert(s, k, v), k2) == (tbl_contains(
            s,
            k2,
        ) || k2 == k),
    decreases s.len(),
{
    let t = tbl_insert(s, k, v);
    if s.len() == 0 || lex_lt(k, s.first().0) {
        assert(t == seq![(k, v)] + s);
        assert(t.first() == (k, v));
        assert(t.drop_first() =~= s);
        assert forall|i: int, j: int| 0 <= i < j < t.len() implies lex_lt(
            #[trigger] t[i].0,
            #[trigger] t[j].0,
        ) by {
            if i == 0 {
                assert(t[j] == s[j - 1]);
                if j > 1 {
                    assert(lex_lt(s[0].0, s[j - 1].0));
                    lemma_lex_lt_trans(k, s[0].0, s[j - 1].0);
                }
            } else {
                assert(t[i] == s[i - 1]);
                assert(t[j] == s[j - 1]);
            }
        }
        assert forall|k2: Seq<char>| k2 != k implies #[trigger] tbl_get(tbl_insert(s, k, v), k2)
            == tbl_get(s, k2) by {
            assert(tbl_get(t, k2) == tbl_get(t.drop_first(), k2));
        }
        assert forall|k2: Seq<char>| #[trigger] tbl_contains(tbl_insert(s, k, v), k2) == (
        tbl_contains(s, k2) || k2 == k) by {
            assert(tbl_contains(t, k2) == (t.first().0 == k2 || tbl_contains(t.drop_first(), k2)));
        }
    } else {
        let s0 = s.first();
        lemma_sorted_drop_first(s);
        lemma_insert_props(s.drop_first(), k, v);
        let u = tbl_insert(s.drop_first(), k, v);
        assert(t == seq![s0] + u);
        assert(t.first() == s0);
        assert(t.drop_first() =~= u);
        // The front key is below the inserted key.
        lemma_lex_lt_irrefl(k);
        assert(s0.0 != k);
        assert(lex_lt(s0.0, k)) by {
            if !lex_lt(s0.0, k) {
                lemma_lex_lt_connected(k, s0.0);
            }
        }
        // The front key is below every key of `u`.
        assert forall|i: int, j: int| 0 <= i < j < t.len() implies lex_lt(
            #[trigger] t[i].0,
            #[trigger] t[j].0,
        ) by {
            if i == 0 {
                assert(t[j] == u[j - 1]);
                lemma_index_contains(u, j - 1);
                if tbl_contains(s.drop_first(), u[j - 1].0) {
                    lemma_sorted_contains_tail(s, u[j - 1].0);
                } else {
                    assert(u[j - 1].0 == k);
                }
            } else {
                assert(t[i] == u[i - 1]);
                assert(t[j] == u[j - 1]);
            }
        }
        assert forall|k2: Seq<char>| k2 != k implies #[trigger] tbl_get(tbl_insert(s, k, v), k2)
            == tbl_get(s, k2) by {
            if s0.0 == k2 {
                assert(tbl_get(t, k2) == Some(s0.1));
                assert(tbl_get(s, k2) == Some(s0.1));
            } else {
                assert(tbl_get(t, k2) == tbl_get(u, k2));
                assert(tbl_get(s, k2) == tbl_get(s.drop_first(), k2));
            }
        }
        assert forall|k2: Seq<char>| #[trigger] tbl_contains(tbl_insert(s, k, v), k2) == (
        tbl_contains(s, k2) || k2 == k) by {
            if s0.0 != k2 {
                assert(tbl_contains(t, k2) == tbl_contains(u, k2));
                assert(tbl_contains(s, k2) == tbl_contains(s.drop_first(), k2));
            }
        }
    }
}

/// Every index's key is contained.
pub proof fn lemma_index_contains<VV>(s: Seq<(Seq<char>, VV)>, i: int)
    requires
        0 <= i < s.len(),
    ensures
        tbl_contains(s, s[i].0),
    decreases s.len(),
{
    if i > 0 {
        lemma_index_contains(s.drop_first(), i - 1);
        assert(s.drop_first()[i - 1] == s[i]);
    }
}

/// What `tbl_remove` does to membership, lookups, order, and length.
pub proof fn lemma_remove_props<VV>(s: Seq<(Seq<char>, VV)>, k: Seq<char>)
    requires
        tbl_sorted(s),
    ensures
        tbl_sorted(tbl_remove(s, k)),
        tbl_contains(s, k) ==> tbl_remove(s, k).len() == s.len() - 1,
        !tbl_contains(s, k) ==> tbl_remove(s, k) == s,
        !tbl_contains(tbl_remove(s, k), k),
        forall|k2: Seq<char>| k2 != k ==> #[trigger] tbl_get(tbl_remove(s, k), k2) == tbl_get(
            s,
            k2,
        ),
        forall|k2: Seq<char>| k2 != k ==> #[trigger] tbl_contains(tbl_remove(s, k), k2)
            == tbl_contains(s, k2),
    decreases s.len(),
{
    if s.len() == 0 {
    } else if s.first().0 == k {
        lemma_sorted_drop_first(s);
        assert(tbl_remove(s, k) == s.drop_first());
        if tbl_contains(s.drop_first(), k) {
            lemma_sorted_contains_tail(s, k);
            lemma_lex_lt_irrefl(k);
        }
        assert forall|k2: Seq<char>| k2 != k implies #[trigger] tbl_get(tbl_remove(s, k), k2)
            == tbl_get(s, k2) by {
            assert(tbl_get(s, k2) == tbl_get(s.drop_first(), k2));
        }
        assert forall|k2: Seq<char>| k2 != k implies #[trigger] tbl_contains(tbl_remove(s, k), k2)
            == tbl_contains(s, k2) by {
            assert(tbl_contains(s, k2) == tbl_contains(s.drop_first(), k2));
        }
    } else {
        let s0 = s.first();
        lemma_sorted_drop_first(s);
        lemma_remove_props(s.drop_first(), k);
        let u = tbl_remove(s.drop_first(), k);
        let t = seq![s0] + u;
        assert(tbl_remove(s, k) == t);
        assert(t.first() == s0);
        assert(t.drop_first() =~= u);
        assert forall|i: int, j: int| 0 <= i < j < t.len() implies lex_lt(
            #[trigger] t[i].0,
            #[trigger] t[j].0,
        ) by {
            if i == 0 {
                assert(t[j] == u[j - 1]);
                lemma_index_contains(u, j - 1);
                if u[j - 1].0 == k {
                    assert(false);
                } else {
                    assert(tbl_contains(s.drop_first(), u[j - 1].0));
                    lemma_sorted_contains_tail(s, u[j - 1].0);
                }
            } else {
                assert(t[i] == u[i - 1]);
                assert(t[j] == u[j - 1]);
            }
        }
        assert forall|k2: Seq<char>| k2 != k implies #[trigger] tbl_get(tbl_remove(s, k), k2)
            == tbl_get(s, k2) by {
            if s0.0 == k2 {
                assert(tbl_get(t, k2) == Some(s0.1));
                assert(tbl_get(s, k2) == Some(s0.1));
            } else {
                assert(tbl_get(t, k2) == tbl_get(u, k2));
                assert(tbl_get(s, k2) == tbl_get(s.drop_first(), k2));
            }
        }
        assert forall|k2: Seq<char>| k2 != k implies #[trigger] tbl_contains(tbl_remove(s, k), k2)
            == tbl_contains(s, k2) by {
            if s0.0 != k2 {
                assert(tbl_contains(t, k2) == tbl_contains(u, k2));
                assert(tbl_contains(s, k2) == tbl_contains(s.drop_first(), k2));
            }
        }
    }
}

/// What `tbl_update` does: same keys in the same order, one value replaced.
pub proof fn lemma_update_props<VV>(s: Seq<(Seq<char>, VV)>, k: Seq<char>, v: VV)
    requires
        tbl_sorted(s),
    ensures
        tbl_sorted(tbl_update(s, k, v)),
        tbl_update(s, k, v).len() == s.len(),
        !tbl_contains(s, k) ==> tbl_update(s, k, v) == s,
        tbl_contains(s, k) ==> tbl_get(tbl_update(s, k, v), k) == Some(v),
        forall|k2: Seq<char>| k2 != k ==> #[trigger] tbl_get(tbl_update(s, k, v), k2) == tbl_get(
            s,
            k2,
        ),
        forall|k2: Seq<char>| #[trigger] tbl_contains(tbl_update(s, k, v), k2) == tbl_contains(
            s,
            k2,
        ),
        forall|i: int| 0 <= i < s.len() ==> (#[trigger] tbl_update(s, k, v)[i]).0 == s[i].0,
    decreases s.len(),
{
    if s.len() == 0 {
    } else if s.first().0 == k {
        let t = seq![(k, v)] + s.drop_first();
        assert(tbl_update(s, k, v) == t);
        assert(t.first() == (k, v));
        assert(t.drop_first() =~= s.drop_first());
        assert(forall|i: int| 1 <= i < s.len() ==> t[i] == s[i]);
        assert forall|i: int, j: int| 0 <= i < j < t.len() implies lex_lt(
            #[trigger] t[i].0,
            #[trigger] t[j].0,
        ) by {
            assert(t[j] == s[j]);
            if i > 0 {
                assert(t[i] == s[i]);
            } else {
                assert(t[0].0 == s[0].0);
            }
        }
        assert forall|k2: Seq<char>| k2 != k implies #[trigger] tbl_get(tbl_update(s, k, v), k2)
            == tbl_get(s, k2) by {
            assert(tbl_get(t, k2) == tbl_get(t.drop_first(), k2));
            assert(tbl_get(s, k2) == tbl_get(s.drop_first(), k2));
        }
        assert forall|k2: Seq<char>| #[trigger] tbl_contains(tbl_update(s, k, v), k2)
            == tbl_contains(s, k2) by {
            if k2 != k {
                assert(tbl_contains(t, k2) == tbl_contains(t.drop_first(), k2));
                assert(tbl_contains(s, k2) == tbl_contains(s.drop_first(), k2));
            }
        }
    } else {
        let s0 = s.first();
        lemma_sorted_drop_first(s);
        lemma_update_props(s.drop_first(), k, v);
        let u = tbl_update(s.drop_first(), k, v);
        let t = seq![s0] + u;
        assert(tbl_update(s, k, v) == t);
        assert(t.first() == s0);
        assert(t.drop_first() =~= u);
        assert forall|i: int, j: int| 0 <= i < j < t.len() implies lex_lt(
            #[trigger] t[i].0,
            #[trigger] t[j].0,
        ) by {
            if i == 0 {
                assert(t[j] == u[j - 1]);
                assert(u[j - 1].0 == s.drop_first()[j - 1].0);
                assert(s.drop_first()[j - 1] == s[j]);
            } else {
                assert(t[i] == u[i - 1]);
                assert(t[j] == u[j - 1]);
            }
        }
        assert forall|i: int| 0 <= i < s.len() implies (#[trigger] t[i]).0 == s[i].0 by {
            if i > 0 {
                assert(t[i] == u[i - 1]);
                assert(u[i - 1].0 == s.drop_first()[i - 1].0);
                assert(s.drop_first()[i - 1] == s[i]);
            }
        }
        assert forall|k2: Seq<char>| k2 != k implies #[trigger] tbl_get(tbl_update(s, k, v), k2)
            == tbl_get(s, k2) by {
            if s0.0 == k2 {
                assert(tbl_get(t, k2) == Some(s0.1));
                assert(tbl_get(s, k2) == Some(s0.1));
            } else {
                assert(tbl_get(t, k2) == tbl_get(u, k2));
                assert(tbl_get(s, k2) == tbl_get(s.drop_first(), k2));
            }
        }
        assert forall|k2: Seq<char>| #[trigger] tbl_contains(tbl_update(s, k, v), k2)
            == tbl_contains(s, k2) by {
            if s0.0 != k2 {
                assert(tbl_contains(t, k2) == tbl_contains(u, k2));
                assert(tbl_contains(s, k2) == tbl_contains(s.drop_first(), k2));
            }
        }
    }
}

/// Removing a freshly inserted key gives back the original table.
pub proof fn lemma_insert_then_remove<VV>(s: Seq<(Seq<char>, VV)>, k: Seq<char>, v: VV)
    requires
        tbl_sorted(s),
        !tbl_contains(s, k),
    ensures
        tbl_remove(tbl_insert(s, k, v), k) == s,
    decreases s.len(),
{
    let t = tbl_insert(s, k, v);
    if s.len() == 0 || lex_lt(k, s.first().0) {
        assert(t == seq![(k, v)] + s);
        assert(t.first().0 == k);
        assert(t.drop_first() =~= s);
    } else {
        let s0 = s.first();
        lemma_sorted_drop_first(s);
        lemma_insert_then_remove(s.drop_first(), k, v);
        let u = tbl_insert(s.drop_first(), k, v);
        assert(t == seq![s0] + u);
        assert(t.first() == s0);
        assert(s0.0 != k);
        assert(t.drop_first() =~= u);
        assert(tbl_remove(t, k) == seq![s0] + tbl_remove(u, k));
        assert(seq![s0] + s.drop_first() =~= s);
    }
}

/// Re-inserting what a removal took out gives back the original table.
pub proof fn lemma_remove_then_insert<VV>(s: Seq<(Seq<char>, VV)>, k: Seq<char>, v: VV)
    requires
        tbl_sorted(s),
        tbl_get(s, k) == Some(v),
    ensures
        tbl_insert(tbl_remove(s, k), k, v) == s,
    decreases s.len(),
{
    if s.first().0 == k {
        assert(v == s.first().1);
        let u = s.drop_first();
        assert(tbl_remove(s, k) == u);
        if u.len() > 0 {
            assert(lex_lt(s[0].0, s[1].0));
            assert(u.first() == s[1]);
        }
        assert(tbl_insert(u, k, v) == seq![(k, v)] + u);
        assert((k, v) == s.first());
        assert(seq![s.first()] + u =~= s);
    } else {
        let s0 = s.first();
        lemma_sorted_drop_first(s);
        assert(tbl_contains(s.drop_first(), k)) by {
            lemma_get_some_contains(s.drop_first(), k, v);
        }
        lemma_sorted_contains_tail(s, k);
        lemma_lex_lt_irrefl(k);
        lemma_remove_then_insert(s.drop_first(), k, v);
        let u = tbl_remove(s.drop_first(), k);
        assert(tbl_remove(s, k) == seq![s0] + u);
        let t = seq![s0] + u;
        assert(t.first() == s0);
        assert(t.drop_first() =~= u);
        // The inserted key is above the front key, so insertion recurses.
        assert(!lex_lt(k, s0.0)) by {
            if lex_lt(k, s0.0) {
                lemma_lex_lt_trans(k, s0.0, k);
                lemma_lex_lt_irrefl(k);
            }
        }
        if t.len() == 0 {
        }
        assert(tbl_insert(t, k, v) == seq![s0] + tbl_insert(u, k, v));
        assert(seq![s0] + s.drop_first() =~= s);
    }
}

pub proof fn lemma_get_some_contains<VV>(s: Seq<(Seq<char>, VV)>, k: Seq<char>, v: VV)
    requires
        tbl_get(s, k) == Some(v),
    ensures
        tbl_contains(s, k),
    decreases s.len(),
{
    if s.len() > 0 && s.first().0 != k {
        lemma_get_some_contains(s.drop_first(), k, v);
    }
}

pub proof fn lemma_contains_get_some<VV>(s: Seq<(Seq<char>, VV)>, k: Seq<char>)
    requires
        tbl_contains(s, k),
    ensures
        tbl_get(s, k) is Some,
    decreases s.len(),
{
    if s.first().0 != k {
        lemma_contains_get_some(s.drop_first(), k);
    }
}

/// Updating a value back to what it was gives back the original table.
pub proof fn lemma_update_then_update<VV>(s: Seq<(Seq<char>, VV)>, k: Seq<char>, v1: VV, v2: VV)
    requires
        tbl_get(s, k) == Some(v1),
    ensures
        tbl_update(tbl_update(s, k, v2), k, v1) == s,
    decreases s.len(),
{
    if s.first().0 == k {
        let t = seq![(k, v2)] + s.drop_first();
        assert(tbl_update(s, k, v2) == t);
        assert(t.first() == (k, v2));
        assert(t.drop_first() =~= s.drop_first());
        assert(tbl_update(t, k, v1) == seq![(k, v1)] + s.drop_first());
        assert((k, v1) == s.first());
        assert(seq![s.first()] + s.drop_first() =~= s);
    } else {
        let s0 = s.first();
        lemma_update_then_update(s.drop_first(), k, v1, v2);
        let u = tbl_update(s.drop_first(), k, v2);
        let t = seq![s0] + u;
        assert(tbl_update(s, k, v2) == t);
        assert(t.first() == s0);
        assert(t.drop_first() =~= u);
        assert(tbl_update(t, k, v1) == seq![s0] + tbl_update(u, k, v1));
        assert(seq![s0] + s.drop_first() =~= s);
    }
}

/// Every entry of an insertion result is the new pair or one of the old
/// entries.
pub proof fn lemma_insert_elements<VV>(s: Seq<(Seq<char>, VV)>, k: Seq<char>, v: VV)
    ensures
        forall|i: int|
            0 <= i < tbl_insert(s, k, v).len() ==> (#[trigger] tbl_insert(s, k, v)[i]) == (k, v)
                || exists|j: int| 0 <= j < s.len() && tbl_insert(s, k, v)[i] == #[trigger] s[j],
    decreases s.len(),
{
    let t = tbl_insert(s, k, v);
    if s.len() == 0 || lex_lt(k, s.first().0) {
        assert forall|i: int| 0 <= i < t.len() implies (#[trigger] t[i]) == (k, v) || exists|j: int|
            0 <= j < s.len() && t[i] == #[trigger] s[j] by {
            if i > 0 {
                assert(t[i] == s[i - 1]);
            }
        }
    } else {
        lemma_insert_elements(s.drop_first(), k, v);
        let u = tbl_insert(s.drop_first(), k, v);
        assert forall|i: int| 0 <= i < t.len() implies (#[trigger] t[i]) == (k, v) || exists|j: int|
            0 <= j < s.len() && t[i] == #[trigger] s[j] by {
            if i == 0 {
                assert(t[0] == s[0]);
            } else {
                assert(t[i] == u[i - 1]);
                if u[i - 1] != (k, v) {
                    let j = choose|j: int|
                        0 <= j < s.drop_first().len() && u[i - 1] == #[trigger] s.drop_first()[j];
                    assert(s.drop_first()[j] == s[j + 1]);
                }
            }
        }
    }
}

/// Every entry of a removal result is one of the old entries.
pub proof fn lemma_remove_elements<VV>(s: Seq<(Seq<char>, VV)>, k: Seq<char>)
    ensures
        forall|i: int|
            0 <= i < tbl_remove(s, k).len() ==> exists|j: int|
                0 <= j < s.len() && (#[trigger] tbl_remove(s, k)[i]) == #[trigger] s[j],
    decreases s.len(),
{
    let t = tbl_remove(s, k);
    if s.len() == 0 {
    } else if s.first().0 == k {
        assert forall|i: int| 0 <= i < t.len() implies exists|j: int|
            0 <= j < s.len() && (#[trigger] t[i]) == #[trigger] s[j] by {
            assert(t[i] == s[i + 1]);
        }
    } else {
        lemma_remove_elements(s.drop_first(), k);
        let u = tbl_remove(s.drop_first(), k);
        assert forall|i: int| 0 <= i < t.len() implies exists|j: int|
            0 <= j < s.len() && (#[trigger] t[i]) == #[trigger] s[j] by {
            if i == 0 {
                assert(t[0] == s[0]);
            } else {
                assert(t[i] == u[i - 1]);
                let j = choose|j: int|
                    0 <= j < s.drop_first().len() && u[i - 1] == #[trigger] s.drop_first()[j];
                assert(s.drop_first()[j] == s[j + 1]);
            }
        }
    }
}

/// Every entry of an update result is the new pair or the old entry at the
/// same index.
pub proof fn lemma_update_elements<VV>(s: Seq<(Seq<char>, VV)>, k: Seq<char>, v: VV)
    ensures
        forall|i: int|
            0 <= i < tbl_update(s, k, v).len() ==> (#[trigger] tbl_update(s, k, v)[i]) == (k, v)
                || tbl_update(s, k, v)[i] == s[i],
    decreases s.len(),
{
    if s.len() == 0 {
    } else if s.first().0 == k {
        let t = seq![(k, v)] + s.drop_first();
        assert(forall|i: int| 1 <= i < t.len() ==> t[i] == s[i]);
    } else {
        lemma_update_elements(s.drop_first(), k, v);
        lemma_update_len(s.drop_first(), k, v);
        let u = tbl_update(s.drop_first(), k, v);
        let t = seq![s.first()] + u;
        assert(tbl_update(s, k, v) == t);
        assert forall|i: int| 0 <= i < t.len() implies (#[trigger] t[i]) == (k, v) || t[i]
            == s[i] by {
            if i > 0 {
                assert(t[i] == u[i - 1]);
                assert(u[i - 1] == (k, v) || u[i - 1] == s.drop_first()[i - 1]);
                assert(s.drop_first()[i - 1] == s[i]);
            }
        }
        assert forall|i: int|
            0 <= i < tbl_update(s, k, v).len() implies (#[trigger] tbl_update(s, k, v)[i]) == (
        k, v) || tbl_update(s, k, v)[i] == s[i] by {
            assert(tbl_update(s, k, v)[i] == t[i]);
        }
    }
}

/// A successful lookup means the pair sits at some index.
pub proof fn lemma_get_index<VV>(s: Seq<(Seq<char>, VV)>, k: Seq<char>, v: VV)
    requires
        tbl_get(s, k) == Some(v),
    ensures
        exists|i: int| 0 <= i < s.len() && (#[trigger] s[i]).0 == k && s[i].1 == v,
    decreases s.len(),
{
    if s.len() > 0 {
        if s.first().0 == k {
            assert(s[0].0 == k && s[0].1 == v);
        } else {
            lemma_get_index(s.drop_first(), k, v);
            let i = choose|i: int|
                0 <= i < s.drop_first().len() && (#[trigger] s.drop_first()[i]).0 == k
                    && s.drop_first()[i].1 == v;
            assert(s[i + 1].0 == k && s[i + 1].1 == v);
        }
    }
}

/// Updating a value never changes the number of entries.
pub proof fn lemma_update_len<VV>(s: Seq<(Seq<char>, VV)>, k: Seq<char>, v: VV)
    ensures
        tbl_update(s, k, v).len() == s.len(),
    decreases s.len(),
{
    if s.len() > 0 && s.first().0 != k {
        lemma_update_len(s.drop_first(), k, v);
    }
}

/// Length of the longest key.
pub open spec fn tbl_max_key_len<VV>(s: Seq<(Seq<char>, VV)>) -> nat
    decreases s.len(),
{
    if s.len() == 0 {
        0
    } else {
        let rest = tbl_max_key_len(s.drop_first());
        if s.first().0.len() >= rest {
            s.first().0.len()
        } else {
            rest
        }
    }
}

/// A contained key is no longer than the longest key.
pub proof fn lemma_contains_key_len<VV>(s: Seq<(Seq<char>, VV)>, k: Seq<char>)
    requires
        tbl_contains(s, k),
    ensures
        k.len() <= tbl_max_key_len(s),
    decreases s.len(),
{
    if s.first().0 != k {
        lemma_contains_key_len(s.drop_first(), k);
    }
}

impl<V: View> Table<V> {
    /// Ascending, duplicate-free key order.
    pub open spec fn wf(self) -> bool {
        tbl_sorted(self@)
    }

    /// An empty table.
    pub fn new() -> (r: Table<V>)
        ensures
            r.wf(),
            r@ =~= Seq::<(Seq<char>, V::V)>::empty(),
    {
        Table { entries: Vec::new() }
    }

    /// Number of entries.
    pub fn len(&self) -> (r: usize)
        ensures
            r == self@.len(),
    {
        self.entries.len()
    }

    /// Borrow the value stored at `k`, if any.
    pub fn get(&self, k: &str) -> (r: Option<&V>)
        ensures
            match r {
                Some(v) => tbl_get(self@, k@) == Some(v@),
                None => tbl_get(self@, k@) is None,
            },
    {
        let n = self.entries.len();
        let mut i: usize = 0;
        proof {
            assert(self@.skip(0) =~= self@);
        }
        while i < n
            invariant
                i <= n,
                n == self@.len(),
                n == self.entries@.len(),
                tbl_get(self@, k@) == tbl_get(self@.skip(i as int), k@),
            decreases n - i,
        {
            proof {
                assert(self@.skip(i as int).first() == self@[i as int]);
                assert(self@[i as int] == self.entries@[i as int]@);
            }
            if str_eq(self.entries[i].key.as_str(), k) {
                return Some(&self.entries[i].val);
            }
            proof {
                assert(self@.skip(i as int).drop_first() =~= self@.skip(i as int + 1));
            }
            i += 1;
        }
        proof {
            assert(self@.skip(n as int).len() == 0);
        }
        None
    }

    /// Whether some entry has key `k`.
    pub fn contains_key(&self, k: &str) -> (r: bool)
        ensures
            r == tbl_contains(self@, k@),
    {
        let g = self.get(k);
        proof {
            match tbl_get(self@, k@) {
                Some(v) => lemma_get_some_contains(self@, k@, v),
                None => {
                    if tbl_contains(self@, k@) {
                        lemma_contains_get_some(self@, k@);
                    }
                },
            }
        }
        g.is_some()
    }

    /// Insert a new key at its ordered position.
    pub fn insert_new(&mut self, key: String, val: V)
        requires
            old(self).wf(),
            !tbl_contains(old(self)@, key@),
        ensures
            final(self).wf(),
            final(self)@ == tbl_insert(old(self)@, key@, val@),
    {
        let n = self.entries.len();
        let mut i: usize = 0;
        while i < n && str_lt(self.entries[i].key.as_str(), key.as_str())
            invariant
                i <= n,
                n == self.entries@.len(),
                *self == *old(self),
                forall|j: int| 0 <= j < i ==> lex_lt((#[trigger] self@[j]).0, key@),
                forall|j: int| 0 <= j < self@.len() ==> (#[trigger] self@[j]) == self.entries@[j]@,
            decreases n - i,
        {
            i += 1;
        }
        proof {
            if i < n {
                assert(self@[i as int] == self.entries@[i as int]@);
                assert(!lex_lt(self@[i as int].0, key@));
                lemma_index_contains(self@, i as int);
                assert(self@[i as int].0 != key@);
                assert(lex_lt(key@, self@[i as int].0)) by {
                    if !lex_lt(key@, self@[i as int].0) {
                        lemma_lex_lt_connected(self@[i as int].0, key@);
                    }
                }
            }
            lemma_tbl_insert_at(self@, key@, val@, i as int);
            lemma_insert_props(self@, key@, val@);
        }
        let ghost pre = self@;
        self.entries.insert(i, TableEntry { key, val });
        proof {
            assert(self@ =~= pre.subrange(0, i as int) + seq![(key@, val@)] + pre.skip(i as int));
        }
    }

    /// Take out the entry keyed `k`, returning its value.
    pub fn remove(&mut self, k: &str) -> (r: Option<V>)
        requires
            old(self).wf(),
        ensures
            final(self).wf(),
            final(self)@ == tbl_remove(old(self)@, k@),
            match r {
                Some(v) => tbl_get(old(self)@, k@) == Some(v@),
                None => !tbl_contains(old(self)@, k@) && *final(self) == *old(self),
            },
    {
        let n = self.entries.len();
        let mut i: usize = 0;
        proof {
            assert(self@.skip(0) =~= self@);
        }
        while i < n
            invariant
                i <= n,
                n == self.entries@.len(),
                *self == *old(self),
                tbl_sorted(self@),
                tbl_get(self@, k@) == tbl_get(self@.skip(i as int), k@),
                tbl_contains(self@, k@) == tbl_contains(self@.skip(i as int), k@),
                forall|j: int| 0 <= j < i ==> (#[trigger] self@[j]).0 != k@,
            decreases n - i,
        {
            proof {
                assert(self@.skip(i as int).first() == self@[i as int]);
                assert(self@[i as int] == self.entries@[i as int]@);
            }
            if str_eq(self.entries[i].key.as_str(), k) {
                proof {
                    assert(self@ == old(self)@);
                    assert(tbl_sorted(self@));
                    lemma_tbl_remove_at(self@, k@, i as int);
                    lemma_remove_props(self@, k@);
                }
                let ghost pre = self@;
                let e = self.entries.remove(i);
                proof {
                    assert(self@ =~= pre.subrange(0, i as int) + pre.skip(i as int + 1));
                    assert(tbl_get(pre, k@) == tbl_get(pre.skip(i as int), k@));
                    assert(pre.skip(i as int).first() == pre[i as int]);
                }
                return Some(e.val);
            }
            proof {
                assert(self@.skip(i as int).drop_first() =~= self@.skip(i as int + 1));
            }
            i += 1;
        }
        proof {
            assert(self@.skip(n as int).len() == 0);
            assert(!tbl_contains(self@, k@));
            lemma_remove_props(self@, k@);
        }
        None
    }

    /// Replace the value at key `k`; `false` (and no change) when absent.
    pub fn update(&mut self, k: &str, val: V) -> (r: bool)
        requires
            old(self).wf(),
        ensures
            final(self).wf(),
            r == tbl_contains(old(self)@, k@),
            final(self)@ == tbl_update(old(self)@, k@, val@),
            !r ==> *final(self) == *old(self),
    {
        let n = self.entries.len();
        let mut i: usize = 0;
        proof {
            assert(self@.skip(0) =~= self@);
        }
        while i < n
            invariant
                i <= n,
                n == self.entries@.len(),
                *self == *old(self),
                tbl_sorted(self@),
                tbl_contains(self@, k@) == tbl_contains(self@.skip(i as int), k@),
                forall|j: int| 0 <= j < i ==> (#[trigger] self@[j]).0 != k@,
            decreases n - i,
        {
            proof {
                assert(self@.skip(i as int).first() == self@[i as int]);
                assert(self@[i as int] == self.entries@[i as int]@);
            }
            if str_eq(self.entries[i].key.as_str(), k) {
                proof {
                    assert(self@ == old(self)@);
                    assert(tbl_sorted(self@));
                    lemma_tbl_update_at(self@, k@, val@, i as int);
                    lemma_update_props(self@, k@, val@);
                }
                let ghost pre = self@;
                let nk = String::from_str(k);
                self.entries.set(i, TableEntry { key: nk, val });
                proof {
                    assert(self@ =~= pre.update(i as int, (k@, val@)));
                }
                return true;
            }
            proof {
                assert(self@.skip(i as int).drop_first() =~= self@.skip(i as int + 1));
            }
            i += 1;
        }
        proof {
            assert(self@.skip(n as int).len() == 0);
            assert(!tbl_contains(self@, k@));
            lemma_update_props(self@, k@, val@);
        }
        false
    }
}

/// Position form of `tbl_insert`: inserting between the keys below `k` and
/// the keys above it splices at that index.
pub proof fn lemma_tbl_insert_at<VV>(s: Seq<(Seq<char>, VV)>, k: Seq<char>, v: VV, i: int)
    requires
        0 <= i <= s.len(),
        forall|j: int| 0 <= j < i ==> lex_lt((#[trigger] s[j]).0, k),
        i < s.len() ==> lex_lt(k, s[i].0),
    ensures
        tbl_insert(s, k, v) == s.subrange(0, i) + seq![(k, v)] + s.skip(i),
    decreases i,
{
    if i == 0 {
        if s.len() > 0 {
            assert(lex_lt(k, s.first().0));
        }
        assert(s.subrange(0, 0) + seq![(k, v)] + s.skip(0) =~= seq![(k, v)] + s);
    } else {
        let s0 = s.first();
        assert(lex_lt(s[0].0, k));
        assert(!lex_lt(k, s0.0)) by {
            if lex_lt(k, s0.0) {
                lemma_lex_lt_trans(s0.0, k, s0.0);
                lemma_lex_lt_irrefl(s0.0);
            }
        }
        assert(forall|j: int| 0 <= j < i - 1 ==> lex_lt((#[trigger] s.drop_first()[j]).0, k));
        assert(i - 1 < s.drop_first().len() ==> lex_lt(k, s.drop_first()[i - 1].0));
        lemma_tbl_insert_at(s.drop_first(), k, v, i - 1);
        assert(tbl_insert(s, k, v) == seq![s0] + (s.drop_first().subrange(0, i - 1) + seq![(k, v)]
            + s.drop_first().skip(i - 1)));
        assert(seq![s0] + (s.drop_first().subrange(0, i - 1) + seq![(k, v)] + s.drop_first().skip(
            i - 1,
        )) =~= s.subrange(0, i) + seq![(k, v)] + s.skip(i));
    }
}

/// Position form of `tbl_remove`: removing the first match takes out that
/// index.
pub proof fn lemma_tbl_remove_at<VV>(s: Seq<(Seq<char>, VV)>, k: Seq<char>, i: int)
    requires
        0 <= i < s.len(),
        forall|j: int| 0 <= j < i ==> (#[trigger] s[j]).0 != k,
        s[i].0 == k,
    ensures
        tbl_remove(s, k) == s.subrange(0, i) + s.skip(i + 1),
    decreases i,
{
    if i == 0 {
        assert(s.first().0 == k);
        assert(s.subrange(0, 0) + s.skip(1) =~= s.drop_first());
    } else {
        let s0 = s.first();
        assert(s0.0 != k);
        assert(forall|j: int| 0 <= j < i - 1 ==> (#[trigger] s.drop_first()[j]).0 != k);
        assert(s.drop_first()[i - 1] == s[i]);
        lemma_tbl_remove_at(s.drop_first(), k, i - 1);
        assert(tbl_remove(s, k) == seq![s0] + (s.drop_first().subrange(0, i - 1)
            + s.drop_first().skip(i)));
        assert(seq![s0] + (s.drop_first().subrange(0, i - 1) + s.drop_first().skip(i))
            =~= s.subrange(0, i) + s.skip(i + 1));
    }
}

/// Position form of `tbl_update`: updating the first match rewrites that
/// index.
pub proof fn lemma_tbl_update_at<VV>(s: Seq<(Seq<char>, VV)>, k: Seq<char>, v: VV, i: int)
    requires
        0 <= i < s.len(),
        forall|j: int| 0 <= j < i ==> (#[trigger] s[j]).0 != k,
        s[i].0 == k,
    ensures
        tbl_update(s, k, v) == s.update(i, (k, v)),
    decreases i,
{
    if i == 0 {
        assert(s.first().0 == k);
        assert(seq![(k, v)] + s.drop_first() =~= s.update(0, (k, v)));
    } else {
        let s0 = s.first();
        assert(s0.0 != k);
        assert(forall|j: int| 0 <= j < i - 1 ==> (#[trigger] s.drop_first()[j]).0 != k);
        assert(s.drop_first()[i - 1] == s[i]);
        lemma_tbl_update_at(s.drop_first(), k, v, i - 1);
        assert(tbl_update(s, k, v) == seq![s0] + s.drop_first().update(i - 1, (k, v)));
        assert(seq![s0] + s.drop_first().update(i - 1, (k, v)) =~= s.update(i, (k, v)));
    }
}

} // verus!
