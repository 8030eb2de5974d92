//! The items of a collection as a tree, and searches in it.
use crate::storage::postman::{
    parse_uuid, uuid_value, PostmanItem, PostmanRequest,
};
use vstd::prelude::*;
use vstd::string::StringExecFns;

verus! {

/// An item with all that lies below it, as a value.
pub struct ItemView {
    pub name: Seq<char>,
    pub id: Seq<char>,
    pub kids: Seq<ItemView>,
    pub request: Option<PostmanRequest>,
    pub response: Seq<String>,
}

/// The item as a value.
pub open spec fn item_view(item: PostmanItem) -> ItemView
    decreases item, 1nat,
{
    ItemView {
        name: item.name@,
        id: item.id@,
        kids: forest(item.item@),
        request: item.request,
        response: item.response@,
    }
}

/// The items as values.
pub open spec fn forest(items: Seq<PostmanItem>) -> Seq<ItemView>
    decreases items, 0nat,
{
    if items.len() == 0 {
        Seq::empty()
    } else {
        forest(items.drop_last()).push(item_view(items.last()))
    }
}

/// `forest` keeps the length and goes item by item.
pub proof fn lemma_forest(items: Seq<PostmanItem>)
    ensures
        forest(items).len() == items.len(),
        forall|i: int| 0 <= i < items.len() ==> #[trigger] forest(items)[i] == item_view(items[i]),
    decreases items.len(),
{
    if items.len() > 0 {
        lemma_forest(items.drop_last());
        assert forall|i: int| 0 <= i < items.len() implies #[trigger] forest(items)[i] == item_view(
            items[i],
        ) by {
            if i < items.len() - 1 {
                assert(items.drop_last()[i] == items[i]);
            }
        }
    }
}

/// The path to the first item with id `id`, searching each item before
/// what lies below it and that before the items behind it: the indices to
/// follow from the top.
pub open spec fn path_from(items: Seq<ItemView>, id: Seq<char>, from: int) -> Option<Seq<int>>
    decreases items, items.len() - from,
{
    if from < 0 || from >= items.len() {
        None
    } else if items[from].id == id {
        Some(seq![from])
    } else {
        match path_from(items[from].kids, id, 0) {
            Some(p) => Some(seq![from] + p),
            None => path_from(items, id, from + 1),
        }
    }
}

/// The path to the first item with id `id`.
pub open spec fn path_of(items: Seq<ItemView>, id: Seq<char>) -> Option<Seq<int>> {
    path_from(items, id, 0)
}

/// `path` leads to an item of `items`.
pub open spec fn path_in(items: Seq<ItemView>, path: Seq<int>) -> bool
    decreases path.len(),
{
    path.len() >= 1 && 0 <= path[0] < items.len() && (path.len() > 1 ==> path_in(
        items[path[0]].kids,
        path.drop_first(),
    ))
}

/// The item to which `path` leads.
pub open spec fn item_at(items: Seq<ItemView>, path: Seq<int>) -> ItemView
    recommends
        path_in(items, path),
    decreases path.len(),
{
    if path.len() <= 1 {
        items[path[0]]
    } else {
        item_at(items[path[0]].kids, path.drop_first())
    }
}

/// A path that the search gives leads to an item with the id.
pub proof fn lemma_path_from(items: Seq<ItemView>, id: Seq<char>, from: int)
    requires
        0 <= from,
    ensures
        path_from(items, id, from) is Some ==> path_in(items, path_from(items, id, from)->0)
            && item_at(items, path_from(items, id, from)->0).id == id && path_from(
            items,
            id,
            from,
        )->0[0] >= from,
    decreases items, items.len() - from,
{
    if from < items.len() && items[from].id != id {
        lemma_path_from(items[from].kids, id, 0);
        match path_from(items[from].kids, id, 0) {
            Some(p) => {
                let full = seq![from] + p;
                assert(full.drop_first() =~= p);
            },
            None => {
                lemma_path_from(items, id, from + 1);
            },
        }
    }
}

/// A path as indices.
pub open spec fn path_view(path: Seq<usize>) -> Seq<int> {
    Seq::new(path.len(), |i: int| path[i] as int)
}

/// The path to the first item with id `id` among `items` and below them.
pub fn find_item_path(items: &Vec<PostmanItem>, id: &str) -> (r: Option<Vec<usize>>)
    ensures
        match r {
            Some(p) => path_of(forest(items@), id@) == Some(path_view(p@)),
            None => path_of(forest(items@), id@) is None,
        },
    decreases items,
{
    let wanted = String::from_str(id);
    let mut index: usize = 0;
    proof {
        lemma_forest(items@);
    }
    while index < items.len()
        invariant
            index <= items.len(),
            wanted@ == id@,
            forest(items@).len() == items.len(),
            forall|i: int| 0 <= i < items.len() ==> #[trigger] forest(items@)[i] == item_view(items@[i]),
            path_of(forest(items@), id@) == path_from(forest(items@), id@, index as int),
        decreases items.len() - index,
    {
        if items[index].id == wanted {
            let mut path: Vec<usize> = Vec::new();
            path.push(index);
            proof {
                assert(path_view(path@) =~= seq![index as int]);
            }
            return Some(path);
        }
        match find_item_path(&items[index].item, id) {
            Some(mut path) => {
                let ghost below = path_view(path@);
                path.insert(0, index);
                proof {
                    assert(path_view(path@) =~= seq![index as int] + below);
                }
                return Some(path);
            },
            None => {},
        }
        index += 1;
    }
    None
}

/// The first item with id `id` among `items` and below them.
pub fn find_item<'a>(items: &'a Vec<PostmanItem>, id: &str) -> (r: Option<&'a PostmanItem>)
    ensures
        match r {
            Some(item) => path_of(forest(items@), id@) is Some && item_view(*item) == item_at(
                forest(items@),
                path_of(forest(items@), id@)->0,
            ) && item.id@ == id@,
            None => path_of(forest(items@), id@) is None,
        },
    decreases items,
{
    let wanted = String::from_str(id);
    let mut index: usize = 0;
    proof {
        lemma_forest(items@);
    }
    while index < items.len()
        invariant
            index <= items.len(),
            wanted@ == id@,
            forest(items@).len() == items.len(),
            forall|i: int| 0 <= i < items.len() ==> #[trigger] forest(items@)[i] == item_view(items@[i]),
            path_of(forest(items@), id@) == path_from(forest(items@), id@, index as int),
        decreases items.len() - index,
    {
        if items[index].id == wanted {
            return Some(&items[index]);
        }
        match find_item(&items[index].item, id) {
            Some(found) => {
                proof {
                    let below = path_from(forest(items@[index as int].item@), id@, 0)->0;
                    let full = seq![index as int] + below;
                    assert(full.drop_first() =~= below);
                    lemma_path_from(forest(items@[index as int].item@), id@, 0);
                }
                return Some(found);
            },
            None => {},
        }
        index += 1;
    }
    None
}

/// Whether a request lies among the items or below them.
pub open spec fn has_requests(items: Seq<ItemView>) -> bool
    decreases items,
{
    exists|i: int|
        0 <= i < items.len() && ((#[trigger] items[i]).request is Some || has_requests(
            items[i].kids,
        ))
}

/// Whether a request lies among `items` or below them.
pub fn collection_has_requests(items: &Vec<PostmanItem>) -> (r: bool)
    ensures
        r == has_requests(forest(items@)),
    decreases items,
{
    let mut index: usize = 0;
    proof {
        lemma_forest(items@);
    }
    while index < items.len()
        invariant
            index <= items.len(),
            forest(items@).len() == items.len(),
            forall|i: int| 0 <= i < items.len() ==> #[trigger] forest(items@)[i] == item_view(items@[i]),
            forall|i: int|
                0 <= i < index ==> !((#[trigger] forest(items@)[i]).request is Some || has_requests(
                    forest(items@)[i].kids,
                )),
        decreases items.len() - index,
    {
        if items[index].request.is_some() {
            proof {
                assert(forest(items@)[index as int].request is Some);
            }
            return true;
        }
        if items[index].item.len() > 0 && collection_has_requests(&items[index].item) {
            proof {
                assert(has_requests(forest(items@)[index as int].kids));
            }
            return true;
        }
        proof {
            if items@[index as int].item@.len() == 0 {
                assert(!has_requests(forest(items@[index as int].item@)));
            }
        }
        index += 1;
    }
    false
}

/// The ids of the requests in an item and below it, each before what lies
/// below it; ids that spell no UUID are left out.
pub open spec fn request_ids(item: ItemView) -> Seq<u128>
    decreases item, 1nat,
{
    (if item.request is Some && uuid_value(item.id) is Some {
        seq![uuid_value(item.id)->0]
    } else {
        Seq::empty()
    }) + request_ids_of(item.kids, 0)
}

/// The ids of the requests in the items from `from` on and below them.
pub open spec fn request_ids_of(items: Seq<ItemView>, from: int) -> Seq<u128>
    decreases items, items.len() - from,
{
    if from < 0 || from >= items.len() {
        Seq::empty()
    } else {
        request_ids(items[from]) + request_ids_of(items, from + 1)
    }
}

/// Puts the ids of the requests in `item` and below it behind `out`.
pub fn collect_request_ids(item: &PostmanItem, out: &mut Vec<u128>)
    ensures
        final(out)@ == old(out)@ + request_ids(item_view(*item)),
    decreases item,
{
    if item.request.is_some() {
        match parse_uuid(item.id.as_str()) {
            Some(id) => {
                out.push(id);
            },
            None => {},
        }
    }
    let ghost held = out@;
    let mut index: usize = 0;
    proof {
        lemma_forest(item.item@);
    }
    while index < item.item.len()
        invariant
            index <= item.item.len(),
            forest(item.item@).len() == item.item.len(),
            forall|i: int|
                0 <= i < item.item.len() ==> #[trigger] forest(item.item@)[i] == item_view(
                    item.item@[i],
                ),
            out@ + request_ids_of(forest(item.item@), index as int) == held + request_ids_of(
                forest(item.item@),
                0,
            ),
        decreases item.item.len() - index,
    {
        let ghost before = out@;
        collect_request_ids(&item.item[index], out);
        proof {
            let kids = forest(item.item@);
            assert(out@ + request_ids_of(kids, index + 1) =~= before + (request_ids(
                kids[index as int],
            ) + request_ids_of(kids, index + 1)));
        }
        index += 1;
    }
    proof {
        assert(out@ + Seq::<u128>::empty() =~= out@);
        assert(held + request_ids_of(forest(item.item@), 0) =~= old(out)@ + request_ids(
            item_view(*item),
        ));
    }
}

} // verus!
