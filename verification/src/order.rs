//! The keys of a map, from the least to the greatest.

use std::collections::BTreeMap;
use vstd::prelude::*;
use vstd::std_specs::btree::increasing_seq;
use vstd::std_specs::cmp::OrdSpec;
use vstd::std_specs::iter::IteratorSpec;

verus! {

/// The order of module numbers.
pub open spec fn id_order() -> spec_fn(usize, usize) -> bool {
    |a: usize, b: usize| a < b
}

/// The order of terminal keys: by module, then by index.
pub open spec fn key_order() -> spec_fn((usize, usize), (usize, usize)) -> bool {
    |a: (usize, usize), b: (usize, usize)| a.0 < b.0 || (a.0 == b.0 && a.1 < b.1)
}

/// Whether a sequence holds exactly the given keys, each before those it is less than.
pub open spec fn lists<K>(s: Seq<K>, keys: Set<K>, less: spec_fn(K, K) -> bool) -> bool {
    &&& forall|i: int, j: int| 0 <= i < j < s.len() ==> #[trigger] less(s[i], s[j])
    &&& forall|k: K| #[trigger] keys.contains(k) <==> s.contains(k)
}

/// The given module numbers in ascending order.
pub open spec fn ascending_ids(ids: Set<usize>) -> Seq<usize> {
    choose|s: Seq<usize>| lists(s, ids, id_order())
}

/// The given terminal keys in ascending order.
pub open spec fn ascending_keys(keys: Set<(usize, usize)>) -> Seq<(usize, usize)> {
    choose|s: Seq<(usize, usize)>| lists(s, keys, key_order())
}

/// Whether an order never puts two keys each before the other.
pub open spec fn asymmetric<K>(less: spec_fn(K, K) -> bool) -> bool {
    forall|a: K, b: K| #[trigger] less(a, b) ==> !less(b, a)
}

/// Only one sequence lists a set of keys.
pub proof fn lemma_lists_unique<K>(
    s: Seq<K>,
    t: Seq<K>,
    keys: Set<K>,
    less: spec_fn(K, K) -> bool,
)
    requires
        asymmetric(less),
        lists(s, keys, less),
        lists(t, keys, less),
    ensures
        s == t,
    decreases s.len(),
{
    if s.len() == 0 {
        if t.len() > 0 {
            assert(t.contains(t[0]));
            assert(keys.contains(t[0]));
        }
        assert(s =~= t);
    } else {
        assert(s.contains(s.last()));
        assert(keys.contains(s.last()));
        assert(t.contains(t.last()));
        assert(keys.contains(t.last()));
        let i = choose|i: int| 0 <= i < t.len() && t[i] == s.last();
        let j = choose|j: int| 0 <= j < s.len() && s[j] == t.last();
        if s.last() != t.last() {
            assert(less(t[i], t[t.len() - 1]));
            assert(less(s[j], s[s.len() - 1]));
        }
        let last = s.last();
        assert forall|k: K| #[trigger] keys.remove(last).contains(k) <==> s.drop_last().contains(
            k,
        ) by {
            lemma_rest_of_listing(s, keys, less, k);
        }
        assert forall|k: K| #[trigger] keys.remove(last).contains(k) <==> t.drop_last().contains(
            k,
        ) by {
            lemma_rest_of_listing(t, keys, less, k);
        }
        lemma_lists_unique(s.drop_last(), t.drop_last(), keys.remove(last), less);
        assert(s =~= s.drop_last().push(last));
        assert(t =~= t.drop_last().push(last));
    }
}

/// Whether an order puts any two different keys one before the other, and keeps on doing so from
/// key to key.
pub open spec fn linear<K>(less: spec_fn(K, K) -> bool) -> bool {
    &&& asymmetric(less)
    &&& forall|a: K, b: K| a == b || #[trigger] less(a, b) || less(b, a)
    &&& forall|a: K, b: K, c: K|
        #[trigger] less(a, b) && #[trigger] less(b, c) ==> less(a, c)
}

/// Finitely many keys have a greatest one among them.
proof fn lemma_greatest<K>(keys: Set<K>, less: spec_fn(K, K) -> bool) -> (greatest: K)
    requires
        linear(less),
        keys.finite(),
        keys.len() > 0,
    ensures
        keys.contains(greatest),
        forall|k: K| #[trigger] keys.contains(k) && k != greatest ==> less(k, greatest),
    decreases keys.len(),
{
    let a = keys.choose();
    let rest = keys.remove(a);
    if rest.len() == 0 {
        assert forall|k: K| #[trigger] keys.contains(k) && k != a implies less(k, a) by {
            assert(rest.contains(k));
            assert(rest =~= Set::empty());
        }
        a
    } else {
        let b = lemma_greatest(rest, less);
        let greatest = if less(b, a) {
            a
        } else {
            b
        };
        assert forall|k: K| #[trigger] keys.contains(k) && k != greatest implies less(
            k,
            greatest,
        ) by {
            if k != a {
                assert(rest.contains(k));
            }
            assert(a == b || less(b, a) || less(a, b));
        }
        greatest
    }
}

/// Finitely many keys can be listed in order.
pub proof fn lemma_listing_exists<K>(keys: Set<K>, less: spec_fn(K, K) -> bool) -> (s: Seq<K>)
    requires
        linear(less),
        keys.finite(),
    ensures
        lists(s, keys, less),
    decreases keys.len(),
{
    if keys.len() == 0 {
        assert(keys =~= Set::empty());
        Seq::empty()
    } else {
        let last = lemma_greatest(keys, less);
        let rest = lemma_listing_exists(keys.remove(last), less);
        let s = rest.push(last);
        assert forall|i: int, j: int| 0 <= i < j < s.len() implies #[trigger] less(s[i], s[j]) by {
            if j < rest.len() {
                assert(less(rest[i], rest[j]));
            } else {
                assert(rest.contains(rest[i]));
                assert(keys.remove(last).contains(rest[i]));
                assert(keys.contains(rest[i]));
            }
        }
        assert forall|k: K| #[trigger] keys.contains(k) <==> s.contains(k) by {
            if keys.contains(k) {
                if k == last {
                    assert(s[s.len() - 1] == k);
                } else {
                    assert(keys.remove(last).contains(k));
                    let i = choose|i: int| 0 <= i < rest.len() && rest[i] == k;
                    assert(s[i] == k);
                }
            }
            if s.contains(k) {
                let i = choose|i: int| 0 <= i < s.len() && s[i] == k;
                if i < rest.len() {
                    assert(rest[i] == k);
                    assert(rest.contains(k));
                    assert(keys.remove(last).contains(k));
                }
            }
        }
        s
    }
}

/// The ascending order of finitely many terminal keys lists them.
pub proof fn lemma_ascending_keys(keys: Set<(usize, usize)>)
    requires
        keys.finite(),
    ensures
        lists(ascending_keys(keys), keys, key_order()),
{
    let s = lemma_listing_exists(keys, key_order());
    assert(lists(s, keys, key_order()));
}

/// The ascending order of finitely many module numbers lists them.
pub proof fn lemma_ascending_ids(ids: Set<usize>)
    requires
        ids.finite(),
    ensures
        lists(ascending_ids(ids), ids, id_order()),
{
    let s = lemma_listing_exists(ids, id_order());
    assert(lists(s, ids, id_order()));
}

/// All but the last entry of a listing are the other keys.
proof fn lemma_rest_of_listing<K>(s: Seq<K>, keys: Set<K>, less: spec_fn(K, K) -> bool, k: K)
    requires
        asymmetric(less),
        lists(s, keys, less),
        s.len() > 0,
    ensures
        keys.remove(s.last()).contains(k) <==> s.drop_last().contains(k),
{
    if keys.remove(s.last()).contains(k) {
        assert(keys.contains(k));
        let i = choose|i: int| 0 <= i < s.len() && s[i] == k;
        assert(s.drop_last()[i] == k);
    }
    if s.drop_last().contains(k) {
        let i = choose|i: int| 0 <= i < s.drop_last().len() && s.drop_last()[i] == k;
        assert(s[i] == k);
        assert(s.contains(k));
        assert(keys.contains(k));
        assert(less(s[i], s[s.len() - 1]));
    }
}

/// Keys that the map hands out in increasing order stand in that order.
proof fn lemma_increasing_ids(keys: Seq<usize>)
    requires
        increasing_seq(keys),
    ensures
        forall|i: int, j: int|
            0 <= i < j < keys.len() ==> #[trigger] id_order()(keys[i], keys[j]),
{
    assert forall|i: int, j: int| 0 <= i < j < keys.len() implies #[trigger] id_order()(
        keys[i],
        keys[j],
    ) by {
        assert(keys[i].cmp_spec(&keys[j]) is Less);
    }
}

/// Keys that the map hands out in increasing order stand in that order.
proof fn lemma_increasing_keys(keys: Seq<(usize, usize)>)
    requires
        increasing_seq(keys),
    ensures
        forall|i: int, j: int|
            0 <= i < j < keys.len() ==> #[trigger] key_order()(keys[i], keys[j]),
{
    assert forall|i: int, j: int| 0 <= i < j < keys.len() implies #[trigger] key_order()(
        keys[i],
        keys[j],
    ) by {
        assert(keys[i].cmp_spec(&keys[j]) is Less);
    }
}

/// The keys of a map's entries.
pub open spec fn keys_of<K, V>(entries: Seq<(&K, &V)>) -> Seq<K> {
    Seq::new(entries.len(), |i: int| *entries[i].0)
}

/// The entries that a map hands out, in order, list its keys.
proof fn lemma_entries_list<K, V>(
    entries: Seq<(&K, &V)>,
    map: Map<K, V>,
    less: spec_fn(K, K) -> bool,
)
    requires
        forall|i: int, j: int|
            0 <= i < j < entries.len() ==> #[trigger] less(keys_of(entries)[i], keys_of(entries)[j]),
        forall|i: int|
            0 <= i < entries.len() ==> map.contains_key(*(#[trigger] entries[i]).0),
        forall|k: K| #[trigger] map.contains_key(k) ==> entries.contains((&k, &map[k])),
    ensures
        lists(keys_of(entries), map.dom(), less),
{
    let listed = keys_of(entries);
    assert forall|k: K| #[trigger] map.dom().contains(k) <==> listed.contains(k) by {
        if map.dom().contains(k) {
            assert(map.contains_key(k));
            let i = choose|i: int| 0 <= i < entries.len() && entries[i] == (&k, &map[k]);
            assert(listed[i] == k);
        }
        if listed.contains(k) {
            let i = choose|i: int| 0 <= i < listed.len() && listed[i] == k;
            assert(map.contains_key(*entries[i].0));
        }
    }
}

/// The module numbers of a map, least first.
pub fn ids_in_order<V>(map: &BTreeMap<usize, V>) -> (ids: Vec<usize>)
    ensures
        ids@ == ascending_ids(map@.dom()),
        lists(ids@, map@.dom(), id_order()),
{
    let mut ids: Vec<usize> = Vec::new();
    let entries = map.iter();
    let ghost all = entries.remaining();
    proof {
        let listed = keys_of(all);
        assert(listed =~= all.map_values(|entry: (&usize, &V)| *entry.0));
        lemma_increasing_ids(listed);
        lemma_entries_list(all, map@, id_order());
        lemma_lists_unique(listed, ascending_ids(map@.dom()), map@.dom(), id_order());
    }
    for entry in it: entries
        invariant
            it.seq() == all,
            ids@ == keys_of(all.take(it.index())),
    {
        ids.push(*entry.0);
    }
    assert(all.take(all.len() as int) =~= all);
    ids
}

/// The terminal keys of a map, least first.
pub fn keys_in_order<V>(map: &BTreeMap<(usize, usize), V>) -> (keys: Vec<(usize, usize)>)
    ensures
        keys@ == ascending_keys(map@.dom()),
        lists(keys@, map@.dom(), key_order()),
{
    let mut keys: Vec<(usize, usize)> = Vec::new();
    let entries = map.iter();
    let ghost all = entries.remaining();
    proof {
        let listed = keys_of(all);
        assert(listed =~= all.map_values(|entry: (&(usize, usize), &V)| *entry.0));
        lemma_increasing_keys(listed);
        lemma_entries_list(all, map@, key_order());
        lemma_lists_unique(listed, ascending_keys(map@.dom()), map@.dom(), key_order());
    }
    for entry in it: entries
        invariant
            it.seq() == all,
            keys@ == keys_of(all.take(it.index())),
    {
        keys.push(*entry.0);
    }
    assert(all.take(all.len() as int) =~= all);
    keys
}

/// An entry of a listing of module numbers is not among those before it.
pub(crate) proof fn lemma_not_yet_listed(s: Seq<usize>, ids: Set<usize>, i: int)
    requires
        lists(s, ids, id_order()),
        0 <= i < s.len(),
    ensures
        !s.take(i).contains(s[i]),
{
    if s.take(i).contains(s[i]) {
        let j = choose|j: int| 0 <= j < i && s.take(i)[j] == s[i];
        assert(id_order()(s[j], s[i]));
    }
}

/// What a longer beginning of a sequence holds.
pub(crate) proof fn lemma_take_contains<A>(s: Seq<A>, i: int)
    requires
        0 <= i < s.len(),
    ensures
        forall|a: A| #[trigger]
            s.take(i + 1).contains(a) <==> s.take(i).contains(a) || a == s[i],
{
    assert forall|a: A| #[trigger] s.take(i + 1).contains(a) <==> s.take(i).contains(a) || a
        == s[i] by {
        assert(s.take(i + 1) =~= s.take(i).push(s[i]));
        if s.take(i).contains(a) {
            let j = choose|j: int| 0 <= j < s.take(i).len() && s.take(i)[j] == a;
            assert(s.take(i + 1)[j] == a);
        }
        if a == s[i] {
            assert(s.take(i + 1)[i] == a);
        }
    }
}

/// One more entry looked at while filtering.
pub(crate) proof fn lemma_filter_step<A>(s: Seq<A>, pred: spec_fn(A) -> bool, i: int)
    requires
        0 <= i < s.len(),
    ensures
        s.take(i + 1).filter(pred) == if pred(s[i]) {
            s.take(i).filter(pred).push(s[i])
        } else {
            s.take(i).filter(pred)
        },
{
    reveal(Seq::filter);
    assert(s.take(i + 1).drop_last() =~= s.take(i));
}

/// What is left of a sequence after filtering: those of its entries that are wanted, each once if
/// it was there once.
pub(crate) proof fn lemma_filtered<A>(s: Seq<A>, pred: spec_fn(A) -> bool)
    ensures
        forall|a: A| #[trigger] s.filter(pred).contains(a) <==> s.contains(a) && pred(a),
        s.no_duplicates() ==> s.filter(pred).no_duplicates(),
    decreases s.len(),
{
    reveal(Seq::filter);
    if s.len() > 0 {
        let rest = s.drop_last();
        let last = s.last();
        lemma_filtered(rest, pred);
        assert(s =~= rest.push(last));
        let kept = s.filter(pred);
        let kept_rest = rest.filter(pred);
        assert forall|a: A| #[trigger] kept.contains(a) <==> s.contains(a) && pred(a) by {
            if kept.contains(a) {
                let i = choose|i: int| 0 <= i < kept.len() && kept[i] == a;
                if i < kept_rest.len() {
                    assert(kept_rest[i] == a);
                    assert(kept_rest.contains(a));
                    let j = choose|j: int| 0 <= j < rest.len() && rest[j] == a;
                    assert(s[j] == a);
                } else {
                    assert(s[s.len() - 1] == a);
                }
            }
            if s.contains(a) && pred(a) {
                let i = choose|i: int| 0 <= i < s.len() && s[i] == a;
                if i < rest.len() {
                    assert(rest[i] == a);
                    assert(kept_rest.contains(a));
                    let j = choose|j: int| 0 <= j < kept_rest.len() && kept_rest[j] == a;
                    assert(kept[j] == a);
                } else {
                    assert(kept[kept.len() - 1] == a);
                }
            }
        }
        if s.no_duplicates() {
            assert(rest.no_duplicates());
            if pred(last) {
                assert(!kept_rest.contains(last)) by {
                    if kept_rest.contains(last) {
                        assert(rest.contains(last));
                        let j = choose|j: int| 0 <= j < rest.len() && rest[j] == last;
                        assert(s[j] == s[s.len() - 1]);
                    }
                }
                assert forall|i: int, j: int|
                    0 <= i < kept.len() && 0 <= j < kept.len() && i != j implies kept[i]
                    != kept[j] by {
                    if i < kept_rest.len() {
                        assert(kept_rest.contains(kept_rest[i]));
                    }
                    if j < kept_rest.len() {
                        assert(kept_rest.contains(kept_rest[j]));
                    }
                }
            }
        }
    }
}

/// What a filter keeps stays in order.
pub(crate) proof fn lemma_filter_keeps_order<A>(
    s: Seq<A>,
    pred: spec_fn(A) -> bool,
    less: spec_fn(A, A) -> bool,
)
    requires
        forall|i: int, j: int| 0 <= i < j < s.len() ==> #[trigger] less(s[i], s[j]),
    ensures
        forall|i: int, j: int|
            0 <= i < j < s.filter(pred).len() ==> #[trigger] less(
                s.filter(pred)[i],
                s.filter(pred)[j],
            ),
    decreases s.len(),
{
    reveal(Seq::filter);
    if s.len() > 0 {
        let rest = s.drop_last();
        let kept = s.filter(pred);
        assert forall|i: int, j: int| 0 <= i < j < rest.len() implies #[trigger] less(
            rest[i],
            rest[j],
        ) by {
            assert(less(s[i], s[j]));
        }
        lemma_filter_keeps_order(rest, pred, less);
        lemma_filtered(rest, pred);
        assert forall|i: int, j: int| 0 <= i < j < kept.len() implies #[trigger] less(
            kept[i],
            kept[j],
        ) by {
            let before = rest.filter(pred);
            if j == before.len() {
                assert(before.contains(before[i]));
                assert(rest.contains(before[i]));
                let k = choose|k: int| 0 <= k < rest.len() && rest[k] == before[i];
                assert(less(s[k], s[s.len() - 1]));
            } else {
                assert(less(before[i], before[j]));
            }
        }
    }
}

/// The module numbers of a map come out each once, least first.
pub proof fn law_ids_come_in_order<V>(map: BTreeMap<usize, V>, ids: Vec<usize>)
    requires
        call_ensures(ids_in_order::<V>, (&map,), ids),
    ensures
        forall|i: int, j: int| 0 <= i < j < ids@.len() ==> #[trigger] ids@[i] < #[trigger] ids@[j],
        forall|id: usize| #[trigger] map@.contains_key(id) <==> ids@.contains(id),
{
    assert forall|i: int, j: int| 0 <= i < j < ids@.len() implies #[trigger] ids@[i]
        < #[trigger] ids@[j] by {
        assert(id_order()(ids@[i], ids@[j]));
    }
    assert forall|id: usize| #[trigger] map@.contains_key(id) <==> ids@.contains(id) by {
        assert(map@.dom().contains(id) <==> ids@.contains(id));
    }
}

/// The terminal keys of a map come out each once, by module and then by index.
pub proof fn law_keys_come_in_order<V>(
    map: BTreeMap<(usize, usize), V>,
    keys: Vec<(usize, usize)>,
)
    requires
        call_ensures(keys_in_order::<V>, (&map,), keys),
    ensures
        forall|i: int, j: int|
            0 <= i < j < keys@.len() ==> {
                let a = #[trigger] keys@[i];
                let b = #[trigger] keys@[j];
                a.0 < b.0 || (a.0 == b.0 && a.1 < b.1)
            },
        forall|key: (usize, usize)| #[trigger] map@.contains_key(key) <==> keys@.contains(key),
{
    assert forall|i: int, j: int| 0 <= i < j < keys@.len() implies {
        let a = #[trigger] keys@[i];
        let b = #[trigger] keys@[j];
        a.0 < b.0 || (a.0 == b.0 && a.1 < b.1)
    } by {
        assert(key_order()(keys@[i], keys@[j]));
    }
    assert forall|key: (usize, usize)| #[trigger]
        map@.contains_key(key) <==> keys@.contains(key) by {
        assert(map@.dom().contains(key) <==> keys@.contains(key));
    }
}

} // verus!
