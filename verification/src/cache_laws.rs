//! What follows from the statements about the caches: a key never has two
//! entries, a read changes no value, and a write changes the value under
//! its key only, at the price of the least recently used entry at most.
use vstd::prelude::*;
use crate::cache::{key_pred, lookup, position, put, touched};
use crate::ids::MessageId;
use crate::seq_util::{is_first_where, lemma_first_where_exists};

verus! {

/// No two entries have the same key.
pub open spec fn distinct_keys<V>(entries: Seq<(MessageId, V)>) -> bool {
    forall|i: int, j: int|
        #![trigger entries[i], entries[j]]
        0 <= i < j < entries.len() ==> entries[i].0 != entries[j].0
}

/// Where the entry under a key is: the first position with that key.
pub proof fn lemma_position<V>(entries: Seq<(MessageId, V)>, id: MessageId)
    ensures
        0 <= position(entries, id) <= entries.len(),
        position(entries, id) < entries.len() ==> entries[position(entries, id)].0 == id,
        forall|j: int| 0 <= j < position(entries, id) ==> (#[trigger] entries[j]).0 != id,
{
    lemma_first_where_exists(entries, key_pred::<V>(id));
    let k = position(entries, id);
    assert(is_first_where(entries, key_pred::<V>(id), k));
    assert forall|j: int| 0 <= j < k implies (#[trigger] entries[j]).0 != id by {
        assert(!key_pred::<V>(id)(entries[j]));
    }
    if k < entries.len() {
        assert(key_pred::<V>(id)(entries[k]));
    }
}

/// With one entry for each key, the entry at a position is the one that is
/// found under its key.
pub proof fn lemma_lookup_found<V>(entries: Seq<(MessageId, V)>, k: int)
    requires
        distinct_keys(entries),
        0 <= k < entries.len(),
    ensures
        position(entries, entries[k].0) == k,
        lookup(entries, entries[k].0) == Some(entries[k].1),
{
    let id = entries[k].0;
    lemma_position(entries, id);
    let p = position(entries, id);
    if p < k {
        assert(entries[p].0 != entries[k].0);
    }
}

/// A key that no entry has is not found.
pub proof fn lemma_lookup_none<V>(entries: Seq<(MessageId, V)>, id: MessageId)
    requires
        forall|j: int| 0 <= j < entries.len() ==> (#[trigger] entries[j]).0 != id,
    ensures
        position(entries, id) == entries.len(),
        lookup(entries, id) == None::<V>,
{
    lemma_position(entries, id);
}

/// A read keeps one entry for each key, keeps the number of entries, and
/// changes no value.
pub proof fn lemma_touched<V>(entries: Seq<(MessageId, V)>, id: MessageId)
    requires
        distinct_keys(entries),
    ensures
        distinct_keys(touched(entries, id)),
        touched(entries, id).len() == entries.len(),
        forall|x: MessageId| #[trigger] lookup(touched(entries, id), x) == lookup(entries, x),
{
    let k = position(entries, id);
    let t = touched(entries, id);
    lemma_position(entries, id);
    if k < entries.len() {
        // where each entry of `t` comes from
        assert forall|i: int| 0 <= i < t.len() implies #[trigger] t[i] == entries[if i == 0 {
            k
        } else if i <= k {
            i - 1
        } else {
            i
        }] by {}
        assert forall|i: int, j: int|
            #![trigger t[i], t[j]]
            0 <= i < j < t.len() implies t[i].0 != t[j].0 by {
            let a = if i == 0 { k } else if i <= k { i - 1 } else { i };
            let b = if j <= k { j - 1 } else { j };
            assert(t[i] == entries[a]);
            assert(t[j] == entries[b]);
            if a < b {
                assert(entries[a].0 != entries[b].0);
            } else {
                assert(entries[b].0 != entries[a].0);
            }
        }
        assert forall|x: MessageId| #[trigger] lookup(t, x) == lookup(entries, x) by {
            lemma_position(entries, x);
            let p = position(entries, x);
            if p < entries.len() {
                let q = if p == k { 0 } else if p < k { p + 1 } else { p };
                assert(t[q] == entries[p]);
                lemma_lookup_found(t, q);
            } else {
                assert forall|j: int| 0 <= j < t.len() implies (#[trigger] t[j]).0 != x by {
                    let a = if j == 0 { k } else if j <= k { j - 1 } else { j };
                    assert(t[j] == entries[a]);
                    assert(entries[a].0 != x);
                }
                lemma_lookup_none(t, x);
            }
        }
    }
}

/// A write keeps one entry for each key and never exceeds the capacity.
/// The value is then found under its key. Under every other key the value
/// is as before, or nothing if that entry had to make room.
pub proof fn lemma_put<V>(entries: Seq<(MessageId, V)>, capacity: nat, id: MessageId, value: V)
    requires
        distinct_keys(entries),
        entries.len() <= capacity,
        capacity > 0,
    ensures
        distinct_keys(put(entries, capacity, id, value)),
        put(entries, capacity, id, value).len() <= capacity,
        lookup(put(entries, capacity, id, value), id) == Some(value),
        forall|x: MessageId|
            x != id ==> #[trigger] lookup(put(entries, capacity, id, value), x) == lookup(entries, x)
                || lookup(put(entries, capacity, id, value), x) == None::<V>,
        lookup(entries, id).is_some() ==> forall|x: MessageId|
            x != id ==> #[trigger] lookup(put(entries, capacity, id, value), x) == lookup(entries, x),
{
    let k = position(entries, id);
    let r = put(entries, capacity, id, value);
    lemma_position(entries, id);
    let rest = if k < entries.len() {
        entries.remove(k)
    } else if entries.len() == capacity {
        entries.drop_last()
    } else {
        entries
    };
    assert(r == seq![(id, value)] + rest);
    // `rest` is `entries` without the entry at position `gone`
    let gone = if k < entries.len() {
        k
    } else if entries.len() == capacity {
        entries.len() - 1
    } else {
        entries.len() as int
    };
    assert forall|i: int| 0 <= i < rest.len() implies #[trigger] rest[i] == entries[if i < gone {
        i
    } else {
        i + 1
    }] && rest[i].0 != id by {
        let a = if i < gone { i } else { i + 1 };
        assert(rest[i] == entries[a]);
        if k < entries.len() {
            if a < k {
                assert(entries[a].0 != entries[k].0);
            } else {
                assert(entries[k].0 != entries[a].0);
            }
        } else {
            assert(entries[a].0 != id);
        }
    }
    assert forall|i: int, j: int|
        #![trigger r[i], r[j]]
        0 <= i < j < r.len() implies r[i].0 != r[j].0 by {
        assert(r[j] == rest[j - 1]);
        if i > 0 {
            assert(r[i] == rest[i - 1]);
            let a = if i - 1 < gone { i - 1 } else { i };
            let b = if j - 1 < gone { j - 1 } else { j };
            assert(entries[a].0 != entries[b].0);
        }
    }
    assert(r[0] == (id, value));
    lemma_lookup_found(r, 0);
    assert forall|x: MessageId| x != id implies #[trigger] lookup(r, x) == lookup(entries, x) || (
    lookup(r, x) == None::<V> && !lookup(entries, id).is_some()) by {
        lemma_position(entries, x);
        let p = position(entries, x);
        if p < entries.len() && p != gone {
            let q = if p < gone { p + 1 } else { p };
            assert(r[q] == rest[q - 1]);
            lemma_lookup_found(r, q);
        } else {
            assert forall|j: int| 0 <= j < r.len() implies (#[trigger] r[j]).0 != x by {
                if j > 0 {
                    assert(r[j] == rest[j - 1]);
                    let a = if j - 1 < gone { j - 1 } else { j };
                    assert(rest[j - 1] == entries[a]);
                    if p < entries.len() {
                        if a < p {
                            assert(entries[a].0 != entries[p].0);
                        } else {
                            assert(entries[p].0 != entries[a].0);
                        }
                    } else {
                        assert(entries[a].0 != x);
                    }
                }
            }
            lemma_lookup_none(r, x);
        }
    }
}

/// Writing under a key after reading it is the same as writing at once.
pub proof fn lemma_put_after_touch<V>(
    entries: Seq<(MessageId, V)>,
    capacity: nat,
    id: MessageId,
    value: V,
)
    requires
        distinct_keys(entries),
    ensures
        put(touched(entries, id), capacity, id, value) == put(entries, capacity, id, value),
{
    let k = position(entries, id);
    lemma_position(entries, id);
    if k < entries.len() {
        let t = touched(entries, id);
        lemma_touched(entries, id);
        assert(t[0] == entries[k]);
        lemma_lookup_found(t, 0);
        assert(t.remove(0) =~= entries.remove(k));
    }
}

} // verus!
