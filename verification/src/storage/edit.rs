//! Changes to the tree of a collection, each along the path to an item.
use crate::storage::postman::{PostmanItem, PostmanRequest};
use crate::storage::tree::{forest, item_view, lemma_forest, path_in, path_view, ItemView};
use vstd::prelude::*;

verus! {

/// The tree with the item at `path` replaced by `f` of it.
pub open spec fn edit_at(
    items: Seq<ItemView>,
    path: Seq<int>,
    f: spec_fn(ItemView) -> ItemView,
) -> Seq<ItemView>
    decreases path.len(),
{
    if path.len() == 0 || !(0 <= path[0] < items.len()) {
        items
    } else if path.len() == 1 {
        items.update(path[0], f(items[path[0]]))
    } else {
        items.update(
            path[0],
            ItemView { kids: edit_at(items[path[0]].kids, path.drop_first(), f), ..items[path[0]] },
        )
    }
}

/// The tree without the item at `path`.
pub open spec fn remove_at(items: Seq<ItemView>, path: Seq<int>) -> Seq<ItemView>
    decreases path.len(),
{
    if path.len() == 0 || !(0 <= path[0] < items.len()) {
        items
    } else if path.len() == 1 {
        items.remove(path[0])
    } else {
        items.update(
            path[0],
            ItemView { kids: remove_at(items[path[0]].kids, path.drop_first()), ..items[path[0]] },
        )
    }
}

/// The tree with `item` put in behind the item at `path`, as its next sibling.
pub open spec fn insert_after(items: Seq<ItemView>, path: Seq<int>, item: ItemView) -> Seq<
    ItemView,
>
    decreases path.len(),
{
    if path.len() == 0 || !(0 <= path[0] < items.len()) {
        items
    } else if path.len() == 1 {
        items.insert(path[0] + 1, item)
    } else {
        items.update(
            path[0],
            ItemView {
                kids: insert_after(items[path[0]].kids, path.drop_first(), item),
                ..items[path[0]]
            },
        )
    }
}

/// The item named `name`.
pub open spec fn renamed(v: ItemView, name: Seq<char>) -> ItemView {
    ItemView { name, ..v }
}

/// The item with `request` as its request.
pub open spec fn with_request(v: ItemView, request: PostmanRequest) -> ItemView {
    ItemView { request: Some(request), ..v }
}

/// The item with `child` as its last child.
pub open spec fn with_child(v: ItemView, child: ItemView) -> ItemView {
    ItemView { kids: v.kids.push(child), ..v }
}

/// What is left of a path below its first `depth` steps.
pub open spec fn below(path: Seq<usize>, depth: int) -> Seq<int> {
    path_view(path).skip(depth)
}

/// The forest of items that differ from others in one place.
pub proof fn lemma_forest_update(pre: Seq<PostmanItem>, post: Seq<PostmanItem>, at: int)
    requires
        0 <= at < pre.len(),
        post.len() == pre.len(),
        forall|i: int| 0 <= i < pre.len() && i != at ==> post[i] == pre[i],
    ensures
        forest(post) == forest(pre).update(at, item_view(post[at])),
{
    lemma_forest(pre);
    lemma_forest(post);
    assert(forest(post) =~= forest(pre).update(at, item_view(post[at])));
}

/// Renames the item at `path`.
pub fn rename_at(items: &mut Vec<PostmanItem>, path: &Vec<usize>, depth: usize, name: String)
    requires
        depth < path.len(),
        path_in(forest(old(items)@), below(path@, depth as int)),
    ensures
        forest(final(items)@) == edit_at(
            forest(old(items)@),
            below(path@, depth as int),
            |v: ItemView| renamed(v, name@),
        ),
    decreases path.len() - depth,
{
    let index = path[depth];
    let ghost rest = below(path@, depth as int);
    proof {
        lemma_forest(items@);
        assert(rest[0] == index);
        assert(rest.drop_first() =~= below(path@, depth + 1));
    }
    if depth + 1 == path.len() {
        items[index].name = name;
        proof {
            lemma_forest_update(old(items)@, items@, index as int);
        }
    } else {
        rename_at(&mut items[index].item, path, depth + 1, name);
        proof {
            lemma_forest_update(old(items)@, items@, index as int);
        }
    }
}

/// Gives the item at `path` the request `request`.
pub fn set_request_at(
    items: &mut Vec<PostmanItem>,
    path: &Vec<usize>,
    depth: usize,
    request: PostmanRequest,
)
    requires
        depth < path.len(),
        path_in(forest(old(items)@), below(path@, depth as int)),
    ensures
        forest(final(items)@) == edit_at(
            forest(old(items)@),
            below(path@, depth as int),
            |v: ItemView| with_request(v, request),
        ),
    decreases path.len() - depth,
{
    let index = path[depth];
    let ghost rest = below(path@, depth as int);
    proof {
        lemma_forest(items@);
        assert(rest[0] == index);
        assert(rest.drop_first() =~= below(path@, depth + 1));
    }
    if depth + 1 == path.len() {
        items[index].request = Some(request);
        proof {
            lemma_forest_update(old(items)@, items@, index as int);
        }
    } else {
        set_request_at(&mut items[index].item, path, depth + 1, request);
        proof {
            lemma_forest_update(old(items)@, items@, index as int);
        }
    }
}

/// Makes `child` the last child of the item at `path`.
pub fn push_child_at(
    items: &mut Vec<PostmanItem>,
    path: &Vec<usize>,
    depth: usize,
    child: PostmanItem,
)
    requires
        depth < path.len(),
        path_in(forest(old(items)@), below(path@, depth as int)),
    ensures
        forest(final(items)@) == edit_at(
            forest(old(items)@),
            below(path@, depth as int),
            |v: ItemView| with_child(v, item_view(child)),
        ),
    decreases path.len() - depth,
{
    let index = path[depth];
    let ghost rest = below(path@, depth as int);
    proof {
        lemma_forest(items@);
        assert(rest[0] == index);
        assert(rest.drop_first() =~= below(path@, depth + 1));
    }
    if depth + 1 == path.len() {
        let ghost kids = items@[index as int].item@;
        items[index].item.push(child);
        proof {
            assert(items@[index as int].item@.drop_last() =~= kids);
            lemma_forest_update(old(items)@, items@, index as int);
        }
    } else {
        push_child_at(&mut items[index].item, path, depth + 1, child);
        proof {
            lemma_forest_update(old(items)@, items@, index as int);
        }
    }
}

/// Takes the item at `path` out of the tree and returns it.
pub fn take_at(items: &mut Vec<PostmanItem>, path: &Vec<usize>, depth: usize) -> (taken: PostmanItem)
    requires
        depth < path.len(),
        path_in(forest(old(items)@), below(path@, depth as int)),
    ensures
        forest(final(items)@) == remove_at(forest(old(items)@), below(path@, depth as int)),
        item_view(taken) == crate::storage::tree::item_at(
            forest(old(items)@),
            below(path@, depth as int),
        ),
    decreases path.len() - depth,
{
    let index = path[depth];
    let ghost rest = below(path@, depth as int);
    proof {
        lemma_forest(items@);
        assert(rest[0] == index);
        assert(rest.drop_first() =~= below(path@, depth + 1));
    }
    if depth + 1 == path.len() {
        let taken = items.remove(index);
        proof {
            lemma_forest(items@);
            assert(forest(items@) =~= forest(old(items)@).remove(index as int));
        }
        taken
    } else {
        let taken = take_at(&mut items[index].item, path, depth + 1);
        proof {
            lemma_forest_update(old(items)@, items@, index as int);
        }
        taken
    }
}

/// Puts `item` in behind the item at `path`, as its next sibling.
pub fn insert_after_at(
    items: &mut Vec<PostmanItem>,
    path: &Vec<usize>,
    depth: usize,
    item: PostmanItem,
)
    requires
        depth < path.len(),
        path_in(forest(old(items)@), below(path@, depth as int)),
    ensures
        forest(final(items)@) == insert_after(
            forest(old(items)@),
            below(path@, depth as int),
            item_view(item),
        ),
    decreases path.len() - depth,
{
    let index = path[depth];
    let ghost rest = below(path@, depth as int);
    proof {
        lemma_forest(items@);
        assert(rest[0] == index);
        assert(rest.drop_first() =~= below(path@, depth + 1));
    }
    if depth + 1 == path.len() {
        let n = items.len();
        assert(index < n);
        items.insert(index + 1, item);
        proof {
            lemma_forest(items@);
            assert(forest(items@) =~= forest(old(items)@).insert(index + 1, item_view(item)));
        }
    } else {
        insert_after_at(&mut items[index].item, path, depth + 1, item);
        proof {
            lemma_forest_update(old(items)@, items@, index as int);
        }
    }
}

/// The item at `path`.
pub fn item_ref<'a>(items: &'a Vec<PostmanItem>, path: &Vec<usize>, depth: usize) -> (r: &'a PostmanItem)
    requires
        depth < path.len(),
        path_in(forest(items@), below(path@, depth as int)),
    ensures
        item_view(*r) == crate::storage::tree::item_at(forest(items@), below(path@, depth as int)),
    decreases path.len() - depth,
{
    let index = path[depth];
    let ghost rest = below(path@, depth as int);
    proof {
        lemma_forest(items@);
        assert(rest[0] == index);
        assert(rest.drop_first() =~= below(path@, depth + 1));
    }
    if depth + 1 == path.len() {
        &items[index]
    } else {
        item_ref(&items[index].item, path, depth + 1)
    }
}

} // verus!
