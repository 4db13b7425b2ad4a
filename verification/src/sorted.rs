use vstd::prelude::*;

use crate::text::chars_of;

verus! {

/// `a` and `b` agree before index `i` and first differ there: `a` ends at
/// `i` while `b` goes on, or the character of `a` at `i` is smaller.
pub open spec fn first_lt_at(a: Seq<char>, b: Seq<char>, i: int) -> bool {
    &&& 0 <= i <= a.len()
    &&& i <= b.len()
    &&& forall|j: int| 0 <= j < i ==> a[j] == b[j]
    &&& ((i == a.len() && i < b.len()) || (i < a.len() && i < b.len() && (a[i] as u32) < (
    b[i] as u32)))
}

/// `a` comes before `b` in the order of `String`: lexicographic by code
/// point, which is the order of the UTF-8 bytes that `String` compares.
pub open spec fn text_lt(a: Seq<char>, b: Seq<char>) -> bool {
    exists|i: int| first_lt_at(a, b, i)
}

/// No text comes before itself.
pub proof fn lemma_text_lt_irreflexive(a: Seq<char>)
    ensures
        !text_lt(a, a),
{
}

/// The order of texts is transitive.
pub proof fn lemma_text_lt_transitive(a: Seq<char>, b: Seq<char>, c: Seq<char>)
    requires
        text_lt(a, b),
        text_lt(b, c),
    ensures
        text_lt(a, c),
{
    let i = choose|i: int| first_lt_at(a, b, i);
    let j = choose|j: int| first_lt_at(b, c, j);
    if i <= j {
        assert(first_lt_at(a, c, i));
    } else {
        assert(first_lt_at(a, c, j));
    }
}

proof fn lemma_text_lt_total_from(a: Seq<char>, b: Seq<char>, i: int)
    requires
        0 <= i <= a.len(),
        i <= b.len(),
        forall|j: int| 0 <= j < i ==> a[j] == b[j],
        a != b,
    ensures
        text_lt(a, b) || text_lt(b, a),
    decreases a.len() - i,
{
    if i == a.len() && i == b.len() {
        assert(a =~= b);
    } else if i == a.len() {
        assert(first_lt_at(a, b, i));
    } else if i == b.len() {
        assert(first_lt_at(b, a, i));
    } else if a[i] == b[i] {
        lemma_text_lt_total_from(a, b, i + 1);
    } else if (a[i] as u32) < (b[i] as u32) {
        assert(first_lt_at(a, b, i));
    } else {
        if (a[i] as u32) == (b[i] as u32) {
            vstd::utf8::char_u32_cast(a[i], a[i] as u32);
            vstd::utf8::char_u32_cast(b[i], b[i] as u32);
        }
        assert((b[i] as u32) != (a[i] as u32));
        assert(first_lt_at(b, a, i));
    }
}

/// Of two different texts, one comes before the other.
pub proof fn lemma_text_lt_total(a: Seq<char>, b: Seq<char>)
    requires
        a != b,
    ensures
        text_lt(a, b) || text_lt(b, a),
{
    lemma_text_lt_total_from(a, b, 0);
}

/// Whether `a` comes before `b` in the order of `String`.
pub fn text_less(a: &String, b: &String) -> (r: bool)
    ensures
        r == text_lt(a@, b@),
{
    let ca = chars_of(a.as_str());
    let cb = chars_of(b.as_str());
    let la = ca.len();
    let lb = cb.len();
    let mut i: usize = 0;
    while i < la && i < lb
        invariant
            la == ca@.len() == a@.len(),
            lb == cb@.len() == b@.len(),
            ca@ == a@,
            cb@ == b@,
            i <= la,
            i <= lb,
            forall|j: int| 0 <= j < i ==> ca@[j] == cb@[j],
        ensures
            i <= la,
            i <= lb,
            forall|j: int| 0 <= j < i ==> ca@[j] == cb@[j],
            (i < la && i < lb) ==> ca@[i as int] != cb@[i as int],
        decreases la - i,
    {
        if ca[i] != cb[i] {
            break;
        }
        i = i + 1;
    }
    let r = if i < la && i < lb {
        (ca[i] as u32) < (cb[i] as u32)
    } else {
        i == la && i < lb
    };
    proof {
        if r {
            assert(first_lt_at(a@, b@, i as int));
        } else {
            assert forall|k: int| !first_lt_at(a@, b@, k) by {
                if first_lt_at(a@, b@, k) {
                    if k < i {
                        assert(a@[k] == b@[k]);
                        assert(false);
                    } else if k > i {
                        assert(i < la && i < lb);
                        assert(a@[i as int] == b@[i as int]);
                        assert(false);
                    } else {
                        assert(false);
                    }
                }
            }
        }
    }
    r
}

/// The keys of `s` come in strictly ascending order.
pub open spec fn keys_ascending<V>(s: Seq<(String, V)>) -> bool {
    forall|i: int, j: int| 0 <= i < j < s.len() ==> text_lt(#[trigger] s[i].0@, #[trigger] s[j].0@)
}

/// Keys that come in strictly ascending order are distinct.
pub proof fn lemma_ascending_keys_distinct<V>(s: Seq<(String, V)>, i: int, j: int)
    requires
        keys_ascending(s),
        0 <= i < s.len(),
        0 <= j < s.len(),
        i != j,
    ensures
        s[i].0@ != s[j].0@,
{
    if i < j {
        lemma_text_lt_irreflexive(s[i].0@);
    } else {
        lemma_text_lt_irreflexive(s[j].0@);
    }
}

/// Puts `(key, value)` into `entries`, whose keys ascend: in place of the
/// entry with the same key where there is one, else at the place that keeps
/// the keys ascending. Returns that place and whether an entry was replaced.
pub fn insert_sorted<V>(entries: &mut Vec<(String, V)>, key: String, value: V) -> (r: (
    usize,
    bool,
))
    requires
        keys_ascending(old(entries)@),
    ensures
        keys_ascending(final(entries)@),
        r.0 <= old(entries)@.len(),
        r.1 ==> r.0 < old(entries)@.len() && old(entries)@[r.0 as int].0@ == key@
            && final(entries)@ == old(entries)@.update(r.0 as int, (key, value)),
        !r.1 ==> (forall|i: int|
            0 <= i < old(entries)@.len() ==> old(entries)@[i].0@ != key@) && final(entries)@
            == old(entries)@.insert(r.0 as int, (key, value)),
{
    let ghost old_entries = entries@;
    let n = entries.len();
    let mut p: usize = 0;
    while p < n
        invariant
            n == entries@.len(),
            entries@ == old_entries,
            p <= n,
            forall|j: int| 0 <= j < p ==> text_lt(#[trigger] entries@[j].0@, key@),
        ensures
            n == entries@.len(),
            entries@ == old_entries,
            p <= n,
            forall|j: int| 0 <= j < p ==> text_lt(#[trigger] entries@[j].0@, key@),
            p < n ==> !text_lt(entries@[p as int].0@, key@),
        decreases n - p,
    {
        if !text_less(&entries[p].0, &key) {
            break;
        }
        p = p + 1;
    }
    proof {
        assert forall|j: int| 0 <= j < p implies old_entries[j].0@ != key@ by {
            lemma_text_lt_irreflexive(key@);
        }
    }
    if p < n && entries[p].0 == key {
        entries.set(p, (key, value));
        assert(keys_ascending(entries@)) by {
            assert forall|i: int, j: int| 0 <= i < j < entries@.len() implies text_lt(
                #[trigger] entries@[i].0@,
                #[trigger] entries@[j].0@,
            ) by {
                assert(text_lt(old_entries[i].0@, old_entries[j].0@));
            }
        }
        (p, true)
    } else {
        proof {
            if p < n {
                assert(!text_lt(old_entries[p as int].0@, key@));
                assert(old_entries[p as int].0@ != key@);
                lemma_text_lt_total(old_entries[p as int].0@, key@);
                assert forall|j: int| p <= j < n implies text_lt(key@, old_entries[j].0@) by {
                    if j > p {
                        assert(text_lt(old_entries[p as int].0@, old_entries[j].0@));
                        lemma_text_lt_transitive(key@, old_entries[p as int].0@, old_entries[j].0@);
                    }
                }
                assert forall|j: int| p <= j < n implies old_entries[j].0@ != key@ by {
                    lemma_text_lt_irreflexive(key@);
                }
            }
        }
        entries.insert(p, (key, value));
        assert(keys_ascending(entries@)) by {
            assert forall|i: int, j: int| 0 <= i < j < entries@.len() implies text_lt(
                #[trigger] entries@[i].0@,
                #[trigger] entries@[j].0@,
            ) by {
                if j < p {
                    assert(text_lt(old_entries[i].0@, old_entries[j].0@));
                } else if j == p {
                    assert(entries@[i] == old_entries[i]);
                } else if i < p {
                    assert(entries@[j] == old_entries[j - 1]);
                    assert(text_lt(old_entries[i].0@, key@));
                    assert(text_lt(key@, old_entries[j - 1].0@));
                    lemma_text_lt_transitive(old_entries[i].0@, key@, old_entries[j - 1].0@);
                } else if i == p {
                    assert(entries@[j] == old_entries[j - 1]);
                } else {
                    assert(text_lt(old_entries[i - 1].0@, old_entries[j - 1].0@));
                }
            }
        }
        (p, false)
    }
}

/// The last index of `ids` at which `key` stands, or -1 where it stands
/// nowhere.
pub open spec fn last_index(ids: Seq<Seq<char>>, key: Seq<char>) -> int
    decreases ids.len(),
{
    if ids.len() == 0 {
        -1
    } else if ids.last() == key {
        ids.len() - 1
    } else {
        last_index(ids.drop_last(), key)
    }
}

/// `es` is what a map keyed by text holds once `items` were inserted in
/// order under the keys `ids`, each replacing an earlier one with the same
/// key: its keys ascend, each entry is described (`desc`) by the last item
/// with its key, and each key of an item has an entry.
pub open spec fn keyed_by_last<V, T>(
    es: Seq<(String, V)>,
    items: Seq<T>,
    ids: Seq<Seq<char>>,
    desc: spec_fn((String, V), T) -> bool,
) -> bool {
    &&& keys_ascending(es)
    &&& forall|i: int|
        #![trigger es[i]]
        0 <= i < es.len() ==> 0 <= last_index(ids, es[i].0@) && desc(
            es[i],
            items[last_index(ids, es[i].0@)],
        )
    &&& forall|k: int|
        #![trigger ids[k]]
        0 <= k < ids.len() ==> exists|i: int| 0 <= i < es.len() && #[trigger] es[i].0@ == ids[k]
}

/// Nothing inserted gives no entries.
pub proof fn lemma_keyed_by_last_empty<V, T>(
    items: Seq<T>,
    ids: Seq<Seq<char>>,
    desc: spec_fn((String, V), T) -> bool,
)
    requires
        ids.len() == 0,
    ensures
        keyed_by_last(Seq::<(String, V)>::empty(), items, ids, desc),
{
}

/// Inserting the next item with `insert_sorted` keeps `keyed_by_last`.
pub proof fn lemma_keyed_by_last_step<V, T>(
    es: Seq<(String, V)>,
    es2: Seq<(String, V)>,
    items: Seq<T>,
    ids: Seq<Seq<char>>,
    desc: spec_fn((String, V), T) -> bool,
    entry: (String, V),
    p: int,
    replaced: bool,
)
    requires
        ids.len() > 0,
        items.len() >= ids.len(),
        keyed_by_last(es, items, ids.drop_last(), desc),
        keys_ascending(es2),
        entry.0@ == ids.last(),
        desc(entry, items[ids.len() - 1]),
        forall|e: (String, V), k: int|
            0 <= k < ids.len() ==> (#[trigger] desc(e, items[k]) ==> e.0@ == ids[k]),
        0 <= p <= es.len(),
        replaced ==> p < es.len() && es[p].0@ == entry.0@ && es2 == es.update(p, entry),
        !replaced ==> (forall|i: int| 0 <= i < es.len() ==> es[i].0@ != entry.0@) && es2
            == es.insert(p, entry),
    ensures
        keyed_by_last(es2, items, ids, desc),
{
    let n = ids.len() - 1;
    let prev = ids.drop_last();
    assert(last_index(ids, entry.0@) == n);
    assert forall|i: int| #![trigger es2[i]] 0 <= i < es2.len() implies 0 <= last_index(
        ids,
        es2[i].0@,
    ) && desc(es2[i], items[last_index(ids, es2[i].0@)]) by {
        if i == p {
            assert(es2[i] == entry);
        } else {
            let i0 = if replaced || i < p {
                i
            } else {
                i - 1
            };
            assert(es2[i] == es[i0]);
            if replaced {
                lemma_ascending_keys_distinct(es, i0, p);
            }
            assert(es[i0].0@ != entry.0@);
            assert(last_index(ids, es[i0].0@) == last_index(prev, es[i0].0@));
        }
    }
    assert forall|k: int| #![trigger ids[k]] 0 <= k < ids.len() implies exists|i: int|
        0 <= i < es2.len() && #[trigger] es2[i].0@ == ids[k] by {
        if k == n || ids[k] == entry.0@ {
            assert(es2[p].0@ == ids[k]);
        } else {
            let i = choose|i: int| 0 <= i < es.len() && #[trigger] es[i].0@ == prev[k];
            if replaced {
                assert(i != p);
                assert(es2[i].0@ == ids[k]);
            } else if i < p {
                assert(es2[i].0@ == ids[k]);
            } else {
                assert(es2[i + 1].0@ == ids[k]);
            }
        }
    }
}

} // verus!
