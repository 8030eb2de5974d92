//! The order of a collection: on every level by name, without regard to
//! case, then by id; items that compare equal keep their order.
use crate::storage::postman::PostmanItem;
use crate::storage::tree::{forest, item_view, lemma_forest, ItemView};
use crate::text::{lowercase, to_chars};
use vstd::prelude::*;
use vstd::seq_lib::{to_multiset_build, to_multiset_remove};

verus! {

/// `a` comes before `b` or is `b`, character by character.
pub open spec fn text_le(a: Seq<char>, b: Seq<char>) -> bool
    decreases a.len(),
{
    if a.len() == 0 {
        true
    } else if b.len() == 0 {
        false
    } else if a[0] != b[0] {
        a[0] < b[0]
    } else {
        text_le(a.drop_first(), b.drop_first())
    }
}

/// `a` does not come behind `b` in the order of a collection.
pub open spec fn key_le(a: ItemView, b: ItemView) -> bool {
    if lowercase(a.name) == lowercase(b.name) {
        text_le(a.id, b.id)
    } else {
        text_le(lowercase(a.name), lowercase(b.name))
    }
}

/// Where `x` goes into the sorted items: behind the last item that does
/// not come behind it.
pub open spec fn slot(sorted: Seq<ItemView>, x: ItemView) -> int
    decreases sorted.len(),
{
    if sorted.len() == 0 {
        0
    } else if key_le(sorted.last(), x) {
        sorted.len() as int
    } else {
        slot(sorted.drop_last(), x)
    }
}

/// The items of one level in order.
pub open spec fn sorted_level(items: Seq<ItemView>) -> Seq<ItemView>
    decreases items.len(),
{
    if items.len() == 0 {
        Seq::empty()
    } else {
        let sorted = sorted_level(items.drop_last());
        sorted.insert(slot(sorted, items.last()), items.last())
    }
}

/// The items with what lies below each of them in order.
pub open spec fn with_sorted_kids(items: Seq<ItemView>) -> Seq<ItemView>
    decreases items, 0nat,
{
    if items.len() == 0 {
        Seq::empty()
    } else {
        with_sorted_kids(items.drop_last()).push(
            ItemView { kids: sorted_tree(items.last().kids), ..items.last() },
        )
    }
}

/// The tree in order on every level.
pub open spec fn sorted_tree(items: Seq<ItemView>) -> Seq<ItemView>
    decreases items, 1nat,
{
    sorted_level(with_sorted_kids(items))
}

/// The ids of items.
pub open spec fn ids_of(items: Seq<ItemView>) -> Seq<Seq<char>> {
    Seq::new(items.len(), |i: int| items[i].id)
}

/// Whether putting the tree in order moves an item on some level.
pub open spec fn sort_changes(items: Seq<ItemView>) -> bool
    decreases items,
{
    ids_of(sorted_tree(items)) != ids_of(items) || exists|i: int|
        0 <= i < items.len() && sort_changes((#[trigger] items[i]).kids)
}

/// `slot` lies within the items.
pub proof fn lemma_slot(sorted: Seq<ItemView>, x: ItemView)
    ensures
        0 <= slot(sorted, x) <= sorted.len(),
    decreases sorted.len(),
{
    if sorted.len() > 0 && !key_le(sorted.last(), x) {
        lemma_slot(sorted.drop_last(), x);
    }
}

/// Sorting a level keeps its length.
pub proof fn lemma_sorted_level_len(items: Seq<ItemView>)
    ensures
        sorted_level(items).len() == items.len(),
    decreases items.len(),
{
    if items.len() > 0 {
        lemma_sorted_level_len(items.drop_last());
        lemma_slot(sorted_level(items.drop_last()), items.last());
    }
}

/// `with_sorted_kids` keeps the length and goes item by item.
pub proof fn lemma_with_sorted_kids(items: Seq<ItemView>)
    ensures
        with_sorted_kids(items).len() == items.len(),
        forall|i: int|
            0 <= i < items.len() ==> #[trigger] with_sorted_kids(items)[i] == (ItemView {
                kids: sorted_tree(items[i].kids),
                ..items[i]
            }),
    decreases items.len(),
{
    if items.len() > 0 {
        lemma_with_sorted_kids(items.drop_last());
        assert forall|i: int| 0 <= i < items.len() implies #[trigger] with_sorted_kids(items)[i] == (
        ItemView { kids: sorted_tree(items[i].kids), ..items[i] }) by {
            if i < items.len() - 1 {
                assert(items.drop_last()[i] == items[i]);
            }
        }
    }
}

/// No item comes behind one that stands after it.
pub open spec fn in_order(items: Seq<ItemView>) -> bool {
    forall|i: int, j: int| 0 <= i < j < items.len() ==> key_le(#[trigger] items[i], #[trigger] items[j])
}

/// Of two texts one does not come behind the other.
pub proof fn lemma_text_le_total(a: Seq<char>, b: Seq<char>)
    ensures
        text_le(a, b) || text_le(b, a),
    decreases a.len(),
{
    if a.len() > 0 && b.len() > 0 && a[0] == b[0] {
        lemma_text_le_total(a.drop_first(), b.drop_first());
    }
}

/// Two texts of which neither comes behind the other are one text.
pub proof fn lemma_text_le_same(a: Seq<char>, b: Seq<char>)
    requires
        text_le(a, b),
        text_le(b, a),
    ensures
        a == b,
    decreases a.len(),
{
    if a.len() > 0 && b.len() > 0 {
        lemma_text_le_same(a.drop_first(), b.drop_first());
        assert(a =~= seq![a[0]] + a.drop_first());
        assert(b =~= seq![b[0]] + b.drop_first());
    } else {
        assert(a =~= b);
    }
}

/// The order of texts goes on from one pair to the next.
pub proof fn lemma_text_le_chain(a: Seq<char>, b: Seq<char>, c: Seq<char>)
    requires
        text_le(a, b),
        text_le(b, c),
    ensures
        text_le(a, c),
    decreases a.len(),
{
    if a.len() > 0 && b.len() > 0 && c.len() > 0 && a[0] == b[0] && b[0] == c[0] {
        lemma_text_le_chain(a.drop_first(), b.drop_first(), c.drop_first());
    }
}

/// Of two items one does not come behind the other.
pub proof fn lemma_key_le_total(a: ItemView, b: ItemView)
    ensures
        key_le(a, b) || key_le(b, a),
{
    lemma_text_le_total(a.id, b.id);
    lemma_text_le_total(lowercase(a.name), lowercase(b.name));
}

/// The order of items goes on from one pair to the next.
pub proof fn lemma_key_le_chain(a: ItemView, b: ItemView, c: ItemView)
    requires
        key_le(a, b),
        key_le(b, c),
    ensures
        key_le(a, c),
{
    let (la, lb, lc) = (lowercase(a.name), lowercase(b.name), lowercase(c.name));
    if la == lb && lb == lc {
        lemma_text_le_chain(a.id, b.id, c.id);
    } else if la == lb {
    } else if lb == lc {
    } else {
        lemma_text_le_chain(la, lb, lc);
        if la == lc {
            lemma_text_le_same(la, lb);
        }
    }
}

/// What stands before `slot` does not come behind `x`, if the items are in
/// order; what stands from it on does.
pub proof fn lemma_slot_parts(sorted: Seq<ItemView>, x: ItemView)
    requires
        in_order(sorted),
    ensures
        forall|k: int| 0 <= k < slot(sorted, x) ==> key_le(#[trigger] sorted[k], x),
        forall|k: int| slot(sorted, x) <= k < sorted.len() ==> !key_le(#[trigger] sorted[k], x),
    decreases sorted.len(),
{
    lemma_slot(sorted, x);
    if sorted.len() > 0 {
        if key_le(sorted.last(), x) {
            assert forall|k: int| 0 <= k < sorted.len() implies key_le(#[trigger] sorted[k], x) by {
                if k < sorted.len() - 1 {
                    lemma_key_le_chain(sorted[k], sorted.last(), x);
                }
            }
        } else {
            let rest = sorted.drop_last();
            assert forall|i: int, j: int| 0 <= i < j < rest.len() implies key_le(
                #[trigger] rest[i],
                #[trigger] rest[j],
            ) by {
                assert(rest[i] == sorted[i] && rest[j] == sorted[j]);
            }
            lemma_slot_parts(rest, x);
            lemma_slot(rest, x);
            assert forall|k: int| 0 <= k < slot(sorted, x) implies key_le(#[trigger] sorted[k], x) by {
                assert(rest[k] == sorted[k]);
            }
            assert forall|k: int| slot(sorted, x) <= k < sorted.len() implies !key_le(
                #[trigger] sorted[k],
                x,
            ) by {
                if k < sorted.len() - 1 {
                    assert(rest[k] == sorted[k]);
                }
            }
        }
    }
}

/// A sorted level is in order, and holds the items that were given, each
/// as often as it was given.
pub proof fn lemma_sorted_level_in_order(items: Seq<ItemView>)
    ensures
        in_order(sorted_level(items)),
        sorted_level(items).to_multiset() == items.to_multiset(),
    decreases items.len(),
{
    if items.len() == 0 {
        assert(sorted_level(items) =~= items);
    } else {
        let rest = items.drop_last();
        let x = items.last();
        let sorted = sorted_level(rest);
        let at = slot(sorted, x);
        let after = sorted.insert(at, x);
        lemma_sorted_level_in_order(rest);
        lemma_slot(sorted, x);
        lemma_slot_parts(sorted, x);
        assert forall|i: int, j: int| 0 <= i < j < after.len() implies key_le(
            #[trigger] after[i],
            #[trigger] after[j],
        ) by {
            if j < at {
                assert(after[i] == sorted[i] && after[j] == sorted[j]);
            } else if j == at {
                assert(after[i] == sorted[i]);
            } else if i == at {
                assert(after[j] == sorted[j - 1]);
                lemma_key_le_total(x, sorted[j - 1]);
            } else if i < at {
                assert(after[i] == sorted[i] && after[j] == sorted[j - 1]);
            } else {
                assert(after[i] == sorted[i - 1] && after[j] == sorted[j - 1]);
            }
        }
        assert(after.remove(at) =~= sorted);
        to_multiset_remove(after, at);
        to_multiset_build(rest, x);
        assert(rest.push(x) =~= items);
        assert(after.to_multiset() =~= items.to_multiset()) by {
            assert(after[at] == x);
            after.to_multiset_ensures();
            assert(after.contains(x));
        }
    }
}

/// Whether `a` comes before `b` or is `b`, character by character.
pub fn chars_le(a: &Vec<char>, b: &Vec<char>) -> (r: bool)
    ensures
        r == text_le(a@, b@),
{
    let mut i: usize = 0;
    proof {
        assert(a@.subrange(0, a@.len() as int) =~= a@);
        assert(b@.subrange(0, b@.len() as int) =~= b@);
    }
    loop
        invariant
            i <= a.len(),
            i <= b.len(),
            text_le(a@, b@) == text_le(
                a@.subrange(i as int, a@.len() as int),
                b@.subrange(i as int, b@.len() as int),
            ),
        decreases a.len() - i,
    {
        if i >= a.len() {
            return true;
        }
        if i >= b.len() {
            return false;
        }
        proof {
            let ra = a@.subrange(i as int, a@.len() as int);
            let rb = b@.subrange(i as int, b@.len() as int);
            assert(ra[0] == a@[i as int]);
            assert(rb[0] == b@[i as int]);
            assert(ra.drop_first() =~= a@.subrange(i + 1, a@.len() as int));
            assert(rb.drop_first() =~= b@.subrange(i + 1, b@.len() as int));
        }
        if a[i] != b[i] {
            return a[i] < b[i];
        }
        i += 1;
    }
}

/// Whether `a` does not come behind `b` in the order of a collection.
pub fn item_le(a: &PostmanItem, b: &PostmanItem) -> (r: bool)
    ensures
        r == key_le(item_view(*a), item_view(*b)),
{
    let an = to_chars(a.name.as_str().to_lowercase().as_str());
    let bn = to_chars(b.name.as_str().to_lowercase().as_str());
    if crate::text::same_chars(&an, &bn) {
        let ai = to_chars(a.id.as_str());
        let bi = to_chars(b.id.as_str());
        chars_le(&ai, &bi)
    } else {
        chars_le(&an, &bn)
    }
}

/// Puts the items of one level in order; what lies below them stays.
pub fn sort_level(items: &mut Vec<PostmanItem>)
    ensures
        forest(final(items)@) == sorted_level(forest(old(items)@)),
{
    let n = items.len();
    let ghost all = forest(items@);
    let mut i: usize = 0;
    proof {
        lemma_forest(items@);
        assert(all.take(0) =~= Seq::<ItemView>::empty());
        assert(sorted_level(all.take(0)) + all.skip(0) =~= all);
    }
    while i < n
        invariant
            i <= n,
            n == items.len(),
            all.len() == n,
            forest(items@) == sorted_level(all.take(i as int)) + all.skip(i as int),
        decreases n - i,
    {
        let ghost done = sorted_level(all.take(i as int));
        let ghost before = forest(items@);
        proof {
            lemma_sorted_level_len(all.take(i as int));
            lemma_forest(items@);
            assert(all.take(i + 1).drop_last() =~= all.take(i as int));
            assert(all.take(i + 1).last() == all[i as int]);
            assert(before[i as int] == all[i as int]);
        }
        let x = items.remove(i);
        proof {
            lemma_forest(items@);
            assert(forest(items@) =~= before.remove(i as int));
            assert(item_view(x) == all[i as int]);
        }
        let mut j: usize = i;
        proof {
            assert(done.take(i as int) =~= done);
        }
        while j > 0 && !item_le(&items[j - 1], &x)
            invariant
                j <= i,
                i < n,
                items.len() == n - 1,
                done.len() == i,
                item_view(x) == all[i as int],
                forest(items@) == done + all.skip(i + 1),
                slot(done, item_view(x)) == slot(done.take(j as int), item_view(x)),
            decreases j,
        {
            proof {
                lemma_forest(items@);
                assert(forest(items@)[j - 1] == done[j - 1]);
                assert(done.take(j as int).last() == done[j - 1]);
                assert(done.take(j as int).drop_last() =~= done.take(j - 1));
            }
            j -= 1;
        }
        proof {
            lemma_forest(items@);
            assert(forest(items@) =~= before.remove(i as int)) by {
                assert(before.remove(i as int) =~= done + all.skip(i + 1));
            }
            if j > 0 {
                assert(forest(items@)[j - 1] == done[j - 1]);
                assert(done.take(j as int).last() == done[j - 1]);
            }
            assert(slot(done, item_view(x)) == j);
        }
        let ghost held = forest(items@);
        items.insert(j, x);
        i += 1;
        proof {
            lemma_forest(items@);
            assert(forest(items@) =~= held.insert(j as int, all[i - 1]));
            assert(forest(items@) =~= sorted_level(all.take(i as int)) + all.skip(i as int));
        }
    }
    proof {
        assert(all.take(n as int) =~= all);
        assert(forest(items@) =~= sorted_level(all));
    }
}

/// The ids of the items of one level.
pub fn level_ids(items: &Vec<PostmanItem>) -> (ids: Vec<String>)
    ensures
        crate::text::strings_view(ids@) == ids_of(forest(items@)),
{
    let mut ids: Vec<String> = Vec::new();
    let mut i: usize = 0;
    proof {
        lemma_forest(items@);
    }
    while i < items.len()
        invariant
            i <= items.len(),
            forest(items@).len() == items.len(),
            forall|k: int| 0 <= k < items.len() ==> #[trigger] forest(items@)[k] == item_view(items@[k]),
            crate::text::strings_view(ids@) == ids_of(forest(items@)).take(i as int),
        decreases items.len() - i,
    {
        let ghost held = crate::text::strings_view(ids@);
        ids.push(items[i].id.clone());
        i += 1;
        proof {
            assert(crate::text::strings_view(ids@) =~= held.push(items@[i - 1].id@));
            assert(ids_of(forest(items@))[i - 1] == item_view(items@[i - 1]).id);
            assert(crate::text::strings_view(ids@) =~= ids_of(forest(items@)).take(
                i as int,
            ));
        }
    }
    proof {
        assert(ids_of(forest(items@)).take(i as int) =~= ids_of(forest(items@)));
    }
    ids
}

/// Whether two lists of ids are the same.
pub fn same_ids(a: &Vec<String>, b: &Vec<String>) -> (r: bool)
    ensures
        r == (crate::text::strings_view(a@) == crate::text::strings_view(
            b@,
        )),
{
    if a.len() != b.len() {
        proof {
            assert(crate::text::strings_view(a@).len() == a.len());
            assert(crate::text::strings_view(b@).len() == b.len());
        }
        return false;
    }
    let mut i: usize = 0;
    while i < a.len()
        invariant
            i <= a.len(),
            a.len() == b.len(),
            forall|k: int| 0 <= k < i ==> a@[k]@ == b@[k]@,
        decreases a.len() - i,
    {
        if a[i] != b[i] {
            proof {
                assert(crate::text::strings_view(a@)[i as int] == a@[i as int]@);
                assert(crate::text::strings_view(b@)[i as int] == b@[i as int]@);
            }
            return false;
        }
        i += 1;
    }
    proof {
        assert(crate::text::strings_view(a@) =~= crate::text::strings_view(
            b@,
        ));
    }
    true
}

/// Puts the tree in order on every level. Says whether an item moved.
pub fn sort_items(items: &mut Vec<PostmanItem>) -> (changed: bool)
    ensures
        forest(final(items)@) == sorted_tree(forest(old(items)@)),
        changed == sort_changes(forest(old(items)@)),
    decreases *old(items),
{
    let before = level_ids(items);
    let ghost all = forest(items@);
    let mut below = false;
    let n = items.len();
    let mut i: usize = 0;
    proof {
        lemma_forest(items@);
        lemma_with_sorted_kids(all);
    }
    while i < n
        invariant
            i <= n,
            n == items.len(),
            all == forest(old(items)@),
            all.len() == n,
            old(items)@.len() == n,
            forall|k: int| 0 <= k < i ==> item_view(#[trigger] items@[k]) == with_sorted_kids(all)[k],
            forall|k: int| i <= k < n ==> (#[trigger] items@[k]) == old(items)@[k],
            forall|k: int| 0 <= k < n ==> all[k] == item_view(#[trigger] old(items)@[k]),
            with_sorted_kids(all).len() == n,
            forall|k: int|
                0 <= k < n ==> #[trigger] with_sorted_kids(all)[k] == (ItemView {
                    kids: sorted_tree(all[k].kids),
                    ..all[k]
                }),
            below == exists|k: int| 0 <= k < i && sort_changes((#[trigger] all[k]).kids),
        decreases n - i,
    {
        let ghost was = items@;
        proof {
            assert(items@[i as int] == old(items)@[i as int]);
        }
        let moved = sort_items(&mut items[i].item);
        proof {
            assert(forall|k: int| 0 <= k < n && k != i ==> items@[k] == was[k]);
            assert(item_view(items@[i as int]) == with_sorted_kids(all)[i as int]);
            if moved {
                assert(sort_changes(all[i as int].kids));
            }
        }
        below = below || moved;
        i += 1;
    }
    proof {
        lemma_forest(items@);
        assert(forest(items@) =~= with_sorted_kids(all));
    }
    sort_level(items);
    let after = level_ids(items);
    let level = !same_ids(&before, &after);
    proof {
        assert(below == exists|k: int| 0 <= k < all.len() && sort_changes((#[trigger] all[k]).kids));
    }
    level || below
}

/// Where the key `x` goes into the sorted places: behind the last place
/// whose key does not come behind it.
pub open spec fn key_slot(keys: Seq<Seq<char>>, sorted: Seq<int>, x: Seq<char>) -> int
    decreases sorted.len(),
{
    if sorted.len() == 0 {
        0
    } else if text_le(keys[sorted.last()], x) {
        sorted.len() as int
    } else {
        key_slot(keys, sorted.drop_last(), x)
    }
}

/// The first `n` places of `keys` in the order of their keys; places with
/// equal keys keep their order.
pub open spec fn order_of(keys: Seq<Seq<char>>, n: int) -> Seq<int>
    decreases n,
{
    if n <= 0 {
        Seq::empty()
    } else {
        let sorted = order_of(keys, n - 1);
        sorted.insert(key_slot(keys, sorted, keys[n - 1]), n - 1)
    }
}

/// Places as indices.
pub open spec fn places_view(v: Seq<usize>) -> Seq<int> {
    Seq::new(v.len(), |i: int| v[i] as int)
}

/// `order_of` holds each of the first `n` places once.
pub proof fn lemma_order_of(keys: Seq<Seq<char>>, n: int)
    requires
        0 <= n <= keys.len(),
    ensures
        order_of(keys, n).len() == n,
        forall|i: int| 0 <= i < n ==> 0 <= #[trigger] order_of(keys, n)[i] < n,
        forall|p: int| 0 <= p < n ==> order_of(keys, n).contains(p),
    decreases n,
{
    if n > 0 {
        lemma_order_of(keys, n - 1);
        let sorted = order_of(keys, n - 1);
        lemma_key_slot(keys, sorted, keys[n - 1]);
        let at = key_slot(keys, sorted, keys[n - 1]);
        let next = order_of(keys, n);
        assert(next == sorted.insert(at, n - 1));
        assert forall|p: int| 0 <= p < n implies next.contains(p) by {
            if p == n - 1 {
                assert(next[at] == p);
            } else {
                assert(sorted.contains(p));
                let k = choose|k: int| 0 <= k < sorted.len() && sorted[k] == p;
                if k < at {
                    assert(next[k] == p);
                } else {
                    assert(next[k + 1] == p);
                }
            }
        }
    }
}

/// `key_slot` lies within the places.
pub proof fn lemma_key_slot(keys: Seq<Seq<char>>, sorted: Seq<int>, x: Seq<char>)
    ensures
        0 <= key_slot(keys, sorted, x) <= sorted.len(),
    decreases sorted.len(),
{
    if sorted.len() > 0 && !text_le(keys[sorted.last()], x) {
        lemma_key_slot(keys, sorted.drop_last(), x);
    }
}

/// The places of `keys` in the order of their keys; places with equal keys
/// keep their order.
pub fn sorted_order(keys: &Vec<Vec<char>>) -> (order: Vec<usize>)
    ensures
        places_view(order@) == order_of(crate::text::texts_view(keys@), keys@.len() as int),
        order@.len() == keys@.len(),
        forall|i: int| 0 <= i < order@.len() ==> (#[trigger] order@[i]) < keys@.len(),
{
    let ghost all = crate::text::texts_view(keys@);
    let mut order: Vec<usize> = Vec::new();
    let mut i: usize = 0;
    proof {
        assert(places_view(order@) =~= order_of(all, 0));
    }
    while i < keys.len()
        invariant
            i <= keys.len(),
            all == crate::text::texts_view(keys@),
            places_view(order@) == order_of(all, i as int),
            order@.len() == i,
            forall|k: int| 0 <= k < order@.len() ==> (#[trigger] order@[k]) < i,
        decreases keys.len() - i,
    {
        let ghost done = places_view(order@);
        let mut j: usize = i;
        proof {
            assert(done.take(i as int) =~= done);
        }
        while j > 0 && !chars_le(&keys[order[j - 1]], &keys[i])
            invariant
                j <= i,
                i < keys.len(),
                order@.len() == i,
                all == crate::text::texts_view(keys@),
                done == places_view(order@),
                forall|k: int| 0 <= k < order@.len() ==> (#[trigger] order@[k]) < i,
                key_slot(all, done, all[i as int]) == key_slot(all, done.take(j as int), all[i as int]),
            decreases j,
        {
            proof {
                assert(done.take(j as int).last() == order@[j - 1]);
                assert(done.take(j as int).drop_last() =~= done.take(j - 1));
            }
            j -= 1;
        }
        proof {
            if j > 0 {
                assert(done.take(j as int).last() == order@[j - 1]);
            }
            assert(key_slot(all, done, all[i as int]) == j);
        }
        order.insert(j, i);
        i += 1;
        proof {
            assert(places_view(order@) =~= done.insert(j as int, i - 1));
        }
    }
    order
}

} // verus!
