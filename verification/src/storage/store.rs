//! The collection store: the collection of a project root and the changes
//! that the sidebar makes to it.
use crate::storage::edit::{
    below, edit_at, insert_after, insert_after_at, item_ref, push_child_at, remove_at, rename_at,
    renamed, set_request_at, take_at, with_child, with_request,
};
use crate::storage::postman::{
    new_id, parse_uuid, uuid_string, uuid_text, uuid_value, PostmanCollection, PostmanItem,
    PostmanRequest,
};
use crate::storage::sort::{sort_changes, sort_items, sorted_tree};
use crate::storage::tree::{
    find_item, find_item_path, forest, item_at, item_view, lemma_forest, lemma_path_from, path_of,
    path_view, ItemView,
};
use crate::storage::collection::NodeKind;
use crate::text::{blank, is_blank, to_chars};
use vstd::prelude::*;
use vstd::string::StringExecFns;

verus! {

#[derive(Debug, Clone)]
pub struct ProjectInfo {
    pub id: u128,
    pub name: String,
}

#[derive(Debug)]
pub struct CollectionStore {
    /// The project root, as a path.
    pub root: String,
    pub collection: PostmanCollection,
}

/// An empty folder as a value.
pub open spec fn folder_view(name: Seq<char>, id: u128) -> ItemView {
    ItemView { name, id: uuid_text(id), kids: Seq::empty(), request: None, response: Seq::empty() }
}

/// A request without anything below it as a value.
pub open spec fn request_view(name: Seq<char>, id: u128, request: PostmanRequest) -> ItemView {
    ItemView {
        name,
        id: uuid_text(id),
        kids: Seq::empty(),
        request: Some(request),
        response: Seq::empty(),
    }
}

/// The projects of a collection: its top items whose id is a UUID, as id
/// and name.
pub open spec fn projects_of(items: Seq<ItemView>) -> Seq<(u128, Seq<char>)>
    decreases items.len(),
{
    if items.len() == 0 {
        Seq::empty()
    } else {
        match uuid_value(items.last().id) {
            Some(id) => projects_of(items.drop_last()).push((id, items.last().name)),
            None => projects_of(items.drop_last()),
        }
    }
}

/// Projects as id and name.
pub open spec fn projects_view(v: Seq<ProjectInfo>) -> Seq<(u128, Seq<char>)> {
    Seq::new(v.len(), |i: int| (v[i].id, v[i].name@))
}

/// An id that needs no replacing: not blank, and a UUID.
pub open spec fn valid_id(id: Seq<char>) -> bool {
    !is_blank(id) && uuid_value(id) is Some
}

/// `post` is `pre` with every id that is not valid replaced by a fresh UUID.
pub open spec fn ids_ensured(pre: Seq<ItemView>, post: Seq<ItemView>) -> bool
    decreases pre,
{
    &&& post.len() == pre.len()
    &&& forall|i: int|
        0 <= i < pre.len() ==> {
            &&& (#[trigger] post[i]).name == pre[i].name
            &&& post[i].request == pre[i].request
            &&& post[i].response == pre[i].response
            &&& valid_id(pre[i].id) ==> post[i].id == pre[i].id
            &&& uuid_value(post[i].id) is Some
            &&& ids_ensured(pre[i].kids, post[i].kids)
        }
}

/// Whether an id in the tree is not valid.
pub open spec fn lacks_ids(items: Seq<ItemView>) -> bool
    decreases items,
{
    exists|i: int|
        0 <= i < items.len() && (!valid_id((#[trigger] items[i]).id) || lacks_ids(items[i].kids))
}

/// Gives every item without a valid id a fresh one. Says whether it gave any.
pub fn ensure_item_ids(items: &mut Vec<PostmanItem>) -> (changed: bool)
    ensures
        ids_ensured(forest(old(items)@), forest(final(items)@)),
        changed == lacks_ids(forest(old(items)@)),
    decreases *old(items),
{
    let n = items.len();
    let ghost all = forest(items@);
    let mut changed = false;
    let mut i: usize = 0;
    proof {
        lemma_forest(items@);
    }
    while i < n
        invariant
            i <= n,
            n == items.len(),
            old(items)@.len() == n,
            all == forest(old(items)@),
            all.len() == n,
            forall|k: int| 0 <= k < n ==> all[k] == item_view(#[trigger] old(items)@[k]),
            forall|k: int| i <= k < n ==> (#[trigger] items@[k]) == old(items)@[k],
            forall|k: int|
                0 <= k < i ==> {
                    let post = item_view(#[trigger] items@[k]);
                    &&& post.name == all[k].name
                    &&& post.request == all[k].request
                    &&& post.response == all[k].response
                    &&& valid_id(all[k].id) ==> post.id == all[k].id
                    &&& uuid_value(post.id) is Some
                    &&& ids_ensured(all[k].kids, post.kids)
                },
            changed == exists|k: int|
                0 <= k < i && (!valid_id((#[trigger] all[k]).id) || lacks_ids(all[k].kids)),
        decreases n - i,
    {
        proof {
            assert(items@[i as int] == old(items)@[i as int]);
        }
        let ghost was = items@;
        let id_chars = to_chars(items[i].id.as_str());
        let mut here = false;
        if blank(&id_chars) || parse_uuid(items[i].id.as_str()).is_none() {
            items[i].id = new_id();
            here = true;
        }
        let ghost mid = items@;
        let deeper = ensure_item_ids(&mut items[i].item);
        proof {
            assert(forall|k: int| 0 <= k < n && k != i ==> items@[k] == was[k]);
            if here || deeper {
                assert(!valid_id(all[i as int].id) || lacks_ids(all[i as int].kids));
            }
        }
        changed = changed || here || deeper;
        i += 1;
    }
    proof {
        lemma_forest(items@);
    }
    changed
}

/// Gives the collection and every item without a valid id a fresh one.
/// Says whether it gave any.
pub fn ensure_ids(collection: &mut PostmanCollection) -> (changed: bool)
    ensures
        ids_ensured(forest(old(collection).item@), forest(final(collection).item@)),
        final(collection).info.name == old(collection).info.name,
        final(collection).info.schema == old(collection).info.schema,
        uuid_value(final(collection).info.postman_id@) is Some,
        valid_id(old(collection).info.postman_id@) ==> final(collection).info.postman_id == old(collection).info.postman_id,
        changed == (!valid_id(old(collection).info.postman_id@) || lacks_ids(
            forest(old(collection).item@),
        )),
{
    let mut changed = false;
    let id_chars = to_chars(collection.info.postman_id.as_str());
    if blank(&id_chars) || parse_uuid(collection.info.postman_id.as_str()).is_none() {
        collection.info.postman_id = new_id();
        changed = true;
    }
    let deeper = ensure_item_ids(&mut collection.item);
    changed || deeper
}

/// Puts the collection in order. Says whether an item moved.
pub fn sort_collection(collection: &mut PostmanCollection) -> (changed: bool)
    ensures
        forest(final(collection).item@) == sorted_tree(forest(old(collection).item@)),
        final(collection).info == old(collection).info,
        changed == sort_changes(forest(old(collection).item@)),
{
    sort_items(&mut collection.item)
}

impl CollectionStore {
    /// The items of the collection as a tree of values.
    pub open spec fn tree(self) -> Seq<ItemView> {
        forest(self.collection.item@)
    }

    /// The store differs from `pre` in its tree at most.
    pub open spec fn same_frame(self, pre: CollectionStore) -> bool {
        self.root == pre.root && self.collection.info == pre.collection.info
    }

    pub fn list_projects(&self) -> (projects: Vec<ProjectInfo>)
        ensures
            projects_view(projects@) == projects_of(self.tree()),
    {
        let mut projects: Vec<ProjectInfo> = Vec::new();
        let items = &self.collection.item;
        let mut i: usize = 0;
        proof {
            lemma_forest(items@);
            assert(forest(items@).take(0) =~= Seq::<ItemView>::empty());
            assert(projects_view(projects@) =~= Seq::<(u128, Seq<char>)>::empty());
        }
        while i < items.len()
            invariant
                i <= items.len(),
                items == &self.collection.item,
                forest(items@).len() == items.len(),
                forall|k: int| 0 <= k < items.len() ==> #[trigger] forest(items@)[k] == item_view(items@[k]),
                projects_view(projects@) == projects_of(forest(items@).take(i as int)),
            decreases items.len() - i,
        {
            proof {
                let next = forest(items@).take(i + 1);
                assert(next.drop_last() =~= forest(items@).take(i as int));
                assert(next.last() == item_view(items@[i as int]));
            }
            match parse_uuid(items[i].id.as_str()) {
                Some(id) => {
                    let ghost held = projects_view(projects@);
                    projects.push(ProjectInfo { id, name: items[i].name.clone() });
                    proof {
                        assert(projects_view(projects@) =~= held.push((id, items@[i as int].name@)));
                    }
                },
                None => {},
            }
            i += 1;
        }
        proof {
            assert(forest(items@).take(i as int) =~= forest(items@));
        }
        projects
    }

    /// Adds an empty project named `name` and returns its id.
    pub fn add_project(&mut self, name: String) -> (r: Result<u128, String>)
        ensures
            r is Ok,
            final(self).same_frame(*old(self)),
            final(self).tree() == sorted_tree(old(self).tree().push(folder_view(name@, r->Ok_0))),
    {
        let project = PostmanItem::new_folder(name);
        match parse_uuid(project.id.as_str()) {
            Some(id) => {
                let ghost held = self.collection.item@;
                self.collection.item.push(project);
                proof {
                    assert(self.collection.item@.drop_last() =~= held);
                    assert(forest(project.item@) =~= Seq::<ItemView>::empty());
                    assert(item_view(project).response =~= Seq::<String>::empty());
                    assert(item_view(project) == folder_view(name@, id));
                }
                sort_items(&mut self.collection.item);
                Ok(id)
            },
            None => Err(String::from_str("Invalid project id")),
        }
    }

    /// The first item with id `id`.
    pub fn get_item(&self, id: u128) -> (r: Option<&PostmanItem>)
        ensures
            match r {
                Some(item) => path_of(self.tree(), uuid_text(id)) is Some && item_view(*item)
                    == item_at(self.tree(), path_of(self.tree(), uuid_text(id))->0),
                None => path_of(self.tree(), uuid_text(id)) is None,
            },
    {
        let text = uuid_string(id);
        find_item(&self.collection.item, text.as_str())
    }

    /// Renames the item with id `id` and puts the collection in order.
    pub fn rename_item(&mut self, id: u128, name: String) -> (r: Result<(), String>)
        ensures
            final(self).same_frame(*old(self)),
            match path_of(old(self).tree(), uuid_text(id)) {
                Some(p) => r is Ok && final(self).tree() == sorted_tree(
                    edit_at(old(self).tree(), p, |v: ItemView| renamed(v, name@)),
                ),
                None => r is Err && r->Err_0@ == "Item not found for rename"@ && final(self).tree()
                    == old(self).tree(),
            },
    {
        let text = uuid_string(id);
        match find_item_path(&self.collection.item, text.as_str()) {
            Some(path) => {
                proof {
                    lemma_path_from(self.tree(), uuid_text(id), 0);
                    assert(below(path@, 0) =~= path_view(path@));
                }
                rename_at(&mut self.collection.item, &path, 0, name);
                sort_items(&mut self.collection.item);
                Ok(())
            },
            None => Err(String::from_str("Item not found for rename")),
        }
    }

    /// Deletes the item with id `id` and all below it.
    pub fn delete_item(&mut self, id: u128) -> (r: Result<(), String>)
        ensures
            final(self).same_frame(*old(self)),
            match path_of(old(self).tree(), uuid_text(id)) {
                Some(p) => r is Ok && final(self).tree() == remove_at(old(self).tree(), p),
                None => r is Err && r->Err_0@ == "Item not found for delete"@ && final(self).tree()
                    == old(self).tree(),
            },
    {
        let text = uuid_string(id);
        match find_item_path(&self.collection.item, text.as_str()) {
            Some(path) => {
                proof {
                    lemma_path_from(self.tree(), uuid_text(id), 0);
                    assert(below(path@, 0) =~= path_view(path@));
                }
                let _ = take_at(&mut self.collection.item, &path, 0);
                Ok(())
            },
            None => Err(String::from_str("Item not found for delete")),
        }
    }

    /// Gives the item with id `id` the request `request`.
    pub fn update_request(&mut self, id: u128, request: PostmanRequest) -> (r: Result<(), String>)
        ensures
            final(self).same_frame(*old(self)),
            match path_of(old(self).tree(), uuid_text(id)) {
                Some(p) => r is Ok && final(self).tree() == edit_at(
                    old(self).tree(),
                    p,
                    |v: ItemView| with_request(v, request),
                ),
                None => r is Err && r->Err_0@ == "Item not found for update"@ && final(self).tree()
                    == old(self).tree(),
            },
    {
        let text = uuid_string(id);
        match find_item_path(&self.collection.item, text.as_str()) {
            Some(path) => {
                proof {
                    lemma_path_from(self.tree(), uuid_text(id), 0);
                    assert(below(path@, 0) =~= path_view(path@));
                }
                set_request_at(&mut self.collection.item, &path, 0, request);
                Ok(())
            },
            None => Err(String::from_str("Item not found for update")),
        }
    }

    /// Puts `child` into the item with id `parent_id` and the collection in
    /// order. A request cannot hold anything: `refusal` is then the answer.
    fn add_child(&mut self, parent_id: u128, child: PostmanItem, missing: &str, refusal: &str) -> (r:
        Result<(), String>)
        ensures
            final(self).same_frame(*old(self)),
            match path_of(old(self).tree(), uuid_text(parent_id)) {
                Some(p) => if item_at(old(self).tree(), p).request is Some {
                    r is Err && r->Err_0@ == refusal@ && final(self).tree() == old(self).tree()
                } else {
                    r is Ok && final(self).tree() == sorted_tree(
                        edit_at(old(self).tree(), p, |v: ItemView| with_child(v, item_view(child))),
                    )
                },
                None => r is Err && r->Err_0@ == missing@ && final(self).tree() == old(self).tree(),
            },
    {
        let text = uuid_string(parent_id);
        match find_item_path(&self.collection.item, text.as_str()) {
            Some(path) => {
                proof {
                    lemma_path_from(self.tree(), uuid_text(parent_id), 0);
                    assert(below(path@, 0) =~= path_view(path@));
                }
                if item_ref(&self.collection.item, &path, 0).is_request() {
                    return Err(String::from_str(refusal));
                }
                push_child_at(&mut self.collection.item, &path, 0, child);
                sort_items(&mut self.collection.item);
                Ok(())
            },
            None => Err(String::from_str(missing)),
        }
    }

    /// Adds an empty folder named `name` to the item with id `parent_id`
    /// and returns the folder's id.
    pub fn add_folder(&mut self, parent_id: u128, name: String) -> (r: Result<u128, String>)
        ensures
            final(self).same_frame(*old(self)),
            match path_of(old(self).tree(), uuid_text(parent_id)) {
                Some(p) => if item_at(old(self).tree(), p).request is Some {
                    r is Err && r->Err_0@ == "Cannot add folder inside a request"@ && final(self).tree() == old(self).tree()
                } else {
                    r is Ok && final(self).tree() == sorted_tree(
                        edit_at(
                            old(self).tree(),
                            p,
                            |v: ItemView| with_child(v, folder_view(name@, r->Ok_0)),
                        ),
                    )
                },
                None => r is Err && r->Err_0@ == "Parent not found for add folder"@ && final(self).tree() == old(self).tree(),
            },
    {
        let folder = PostmanItem::new_folder(name);
        match parse_uuid(folder.id.as_str()) {
            Some(id) => {
                proof {
                    assert(forest(folder.item@) =~= Seq::<ItemView>::empty());
                    assert(item_view(folder).response =~= Seq::<String>::empty());
                    assert(item_view(folder) == folder_view(name@, id));
                }
                match self.add_child(
                    parent_id,
                    folder,
                    "Parent not found for add folder",
                    "Cannot add folder inside a request",
                ) {
                    Ok(()) => Ok(id),
                    Err(e) => Err(e),
                }
            },
            None => {
                proof {
                    // the text of a fresh id always reads back
                    assert(false);
                }
                Err(String::from_str("Invalid folder id"))
            },
        }
    }

    /// Adds the request `request` named `name` to the item with id
    /// `parent_id` and returns the new item's id.
    pub fn add_request(&mut self, parent_id: u128, name: String, request: PostmanRequest) -> (r:
        Result<u128, String>)
        ensures
            final(self).same_frame(*old(self)),
            match path_of(old(self).tree(), uuid_text(parent_id)) {
                Some(p) => if item_at(old(self).tree(), p).request is Some {
                    r is Err && r->Err_0@ == "Cannot add request inside a request"@ && final(self).tree() == old(self).tree()
                } else {
                    r is Ok && final(self).tree() == sorted_tree(
                        edit_at(
                            old(self).tree(),
                            p,
                            |v: ItemView| with_child(v, request_view(name@, r->Ok_0, request)),
                        ),
                    )
                },
                None => r is Err && r->Err_0@ == "Parent not found for add request"@ && final(self).tree() == old(self).tree(),
            },
    {
        let item = PostmanItem::new_request(name, request);
        match parse_uuid(item.id.as_str()) {
            Some(id) => {
                proof {
                    assert(forest(item.item@) =~= Seq::<ItemView>::empty());
                    assert(item_view(item).response =~= Seq::<String>::empty());
                    assert(item_view(item) == request_view(name@, id, request));
                }
                match self.add_child(
                    parent_id,
                    item,
                    "Parent not found for add request",
                    "Cannot add request inside a request",
                ) {
                    Ok(()) => Ok(id),
                    Err(e) => Err(e),
                }
            },
            None => {
                proof {
                    // the text of a fresh id always reads back
                    assert(false);
                }
                Err(String::from_str("Invalid request id"))
            },
        }
    }

    /// Moves the item with id `id` to the end of the item with id `dest_id`
    /// and puts the collection in order. The destination is looked for once
    /// the item is taken out: where it is not found then, or is a request,
    /// the item is gone.
    pub fn move_item(&mut self, id: u128, dest_id: u128) -> (r: Result<(), String>)
        ensures
            final(self).same_frame(*old(self)),
            match path_of(old(self).tree(), uuid_text(id)) {
                None => r is Err && r->Err_0@ == "Item not found for move"@ && final(self).tree()
                    == old(self).tree(),
                Some(p) => {
                    let without = remove_at(old(self).tree(), p);
                    match path_of(without, uuid_text(dest_id)) {
                        None => r is Err && r->Err_0@ == "Destination not found"@ && final(self).tree() == without,
                        Some(q) => if item_at(without, q).request is Some {
                            r is Err && r->Err_0@ == "Cannot move into a request"@ && final(self).tree() == without
                        } else {
                            r is Ok && final(self).tree() == sorted_tree(
                                edit_at(
                                    without,
                                    q,
                                    |v: ItemView| with_child(v, item_at(old(self).tree(), p)),
                                ),
                            )
                        },
                    }
                },
            },
    {
        let text = uuid_string(id);
        match find_item_path(&self.collection.item, text.as_str()) {
            Some(path) => {
                proof {
                    lemma_path_from(self.tree(), uuid_text(id), 0);
                    assert(below(path@, 0) =~= path_view(path@));
                }
                let item = take_at(&mut self.collection.item, &path, 0);
                let dest_text = uuid_string(dest_id);
                match find_item_path(&self.collection.item, dest_text.as_str()) {
                    Some(dest) => {
                        proof {
                            lemma_path_from(self.tree(), uuid_text(dest_id), 0);
                            assert(below(dest@, 0) =~= path_view(dest@));
                        }
                        if item_ref(&self.collection.item, &dest, 0).is_request() {
                            return Err(String::from_str("Cannot move into a request"));
                        }
                        push_child_at(&mut self.collection.item, &dest, 0, item);
                        sort_items(&mut self.collection.item);
                        Ok(())
                    },
                    None => Err(String::from_str("Destination not found")),
                }
            },
            None => Err(String::from_str("Item not found for move")),
        }
    }
}

/// `post` is a copy of `pre` with fresh ids throughout: the names and the
/// shape are those of `pre`, and what is a request stays one.
pub open spec fn recloned(pre: ItemView, post: ItemView) -> bool
    decreases pre,
{
    &&& post.name == pre.name
    &&& uuid_value(post.id) is Some
    &&& post.id == uuid_text(uuid_value(post.id)->0)
    &&& post.request is Some == pre.request is Some
    &&& post.kids.len() == pre.kids.len()
    &&& forall|i: int| 0 <= i < pre.kids.len() ==> recloned(pre.kids[i], #[trigger] post.kids[i])
}

/// A copy of `item` and all below it, each with a fresh id.
pub fn clone_with_new_ids(item: &PostmanItem) -> (copy: PostmanItem)
    ensures
        recloned(item_view(*item), item_view(copy)),
    decreases item,
{
    let mut kids: Vec<PostmanItem> = Vec::new();
    let mut i: usize = 0;
    proof {
        lemma_forest(item.item@);
    }
    while i < item.item.len()
        invariant
            i <= item.item.len(),
            kids@.len() == i,
            forest(item.item@).len() == item.item.len(),
            forall|k: int|
                0 <= k < item.item.len() ==> #[trigger] forest(item.item@)[k] == item_view(
                    item.item@[k],
                ),
            forall|k: int|
                0 <= k < i ==> recloned(item_view(item.item@[k]), item_view(#[trigger] kids@[k])),
        decreases item.item.len() - i,
    {
        let kid = clone_with_new_ids(&item.item[i]);
        kids.push(kid);
        i += 1;
    }
    let copy = PostmanItem {
        name: item.name.clone(),
        id: new_id(),
        item: kids,
        request: item.request.clone(),
        response: item.response.clone(),
    };
    proof {
        lemma_forest(copy.item@);
        assert forall|k: int| 0 <= k < item_view(*item).kids.len() implies recloned(
            item_view(*item).kids[k],
            #[trigger] item_view(copy).kids[k],
        ) by {
            assert(item_view(copy).kids[k] == item_view(kids@[k]));
        }
    }
    copy
}

impl CollectionStore {
    /// Puts a copy of the item with id `id`, with fresh ids, behind it and
    /// the collection in order. Returns the id of the copy.
    pub fn duplicate_item(&mut self, id: u128) -> (r: Result<u128, String>)
        ensures
            final(self).same_frame(*old(self)),
            match path_of(old(self).tree(), uuid_text(id)) {
                Some(p) => r is Ok && exists|copy: ItemView|
                    {
                        &&& #[trigger] recloned(item_at(old(self).tree(), p), copy)
                        &&& uuid_value(copy.id) == Some(r->Ok_0)
                        &&& final(self).tree() == sorted_tree(insert_after(old(self).tree(), p, copy))
                    },
                None => r is Err && r->Err_0@ == "Item not found for duplicate"@ && final(self).tree() == old(self).tree(),
            },
    {
        let text = uuid_string(id);
        match find_item_path(&self.collection.item, text.as_str()) {
            Some(path) => {
                proof {
                    lemma_path_from(self.tree(), uuid_text(id), 0);
                    assert(below(path@, 0) =~= path_view(path@));
                }
                let copy = clone_with_new_ids(item_ref(&self.collection.item, &path, 0));
                match parse_uuid(copy.id.as_str()) {
                    Some(copy_id) => {
                        let ghost view = item_view(copy);
                        insert_after_at(&mut self.collection.item, &path, 0, copy);
                        sort_items(&mut self.collection.item);
                        proof {
                            assert(recloned(item_at(old(self).tree(), path_view(path@)), view));
                        }
                        Ok(copy_id)
                    },
                    None => {
                        proof {
                            // the text of a fresh id always reads back
                            assert(false);
                        }
                        Err(String::from_str("Invalid cloned id"))
                    },
                }
            },
            None => Err(String::from_str("Item not found for duplicate")),
        }
    }

    /// Brings a collection that was read into shape: every item gets a
    /// valid id and every level its order. Says whether anything changed, so
    /// that the collection is to be written again.
    pub fn normalize(&mut self) -> (changed: bool)
        ensures
            final(self).root == old(self).root,
            exists|mid: Seq<ItemView>|
                {
                    &&& #[trigger] ids_ensured(old(self).tree(), mid)
                    &&& final(self).tree() == sorted_tree(mid)
                    &&& changed == (!valid_id(old(self).collection.info.postman_id@) || lacks_ids(
                        old(self).tree(),
                    ) || sort_changes(mid))
                },
    {
        let ids = ensure_ids(&mut self.collection);
        let ghost mid = self.tree();
        let order = sort_collection(&mut self.collection);
        proof {
            assert(ids_ensured(old(self).tree(), mid));
        }
        ids || order
    }
}

/// A node of the sidebar tree as a value.
pub struct NodeView {
    pub id: u128,
    pub name: Seq<char>,
    pub kind: NodeKind,
    pub parent: Option<u128>,
    pub children: Seq<u128>,
    pub method: Option<Seq<char>>,
}

#[derive(Debug, Clone)]
pub struct TreeNode {
    pub id: u128,
    pub name: String,
    pub kind: NodeKind,
    pub parent_id: Option<u128>,
    pub children: Vec<u128>,
    /// The method of a request.
    pub request_method: Option<String>,
}

/// The nodes of one project, each below those that lie below it; the
/// project itself is the last.
#[derive(Debug, Clone)]
pub struct ProjectTree {
    pub root_id: u128,
    pub nodes: Vec<TreeNode>,
}

impl View for TreeNode {
    type V = NodeView;

    open spec fn view(&self) -> NodeView {
        NodeView {
            id: self.id,
            name: self.name@,
            kind: self.kind,
            parent: self.parent_id,
            children: self.children@,
            method: match self.request_method {
                Some(m) => Some(m@),
                None => None,
            },
        }
    }
}

/// Nodes as values.
pub open spec fn nodes_view(nodes: Seq<TreeNode>) -> Seq<NodeView> {
    Seq::new(nodes.len(), |i: int| nodes[i]@)
}

/// The ids of the items from `from` on that are UUIDs, in order.
pub open spec fn child_ids(kids: Seq<ItemView>, from: int) -> Seq<u128>
    decreases kids.len() - from,
{
    if from < 0 || from >= kids.len() {
        Seq::empty()
    } else {
        (match uuid_value(kids[from].id) {
            Some(id) => seq![id],
            None => Seq::empty(),
        }) + child_ids(kids, from + 1)
    }
}

/// The node of an item whose id is `id`, as a child of `parent`.
pub open spec fn node_of(item: ItemView, id: u128, kind: NodeKind, parent: Option<u128>) -> NodeView {
    NodeView {
        id,
        name: item.name,
        kind,
        parent,
        children: child_ids(item.kids, 0),
        method: match item.request {
            Some(r) => Some(r.method@),
            None => None,
        },
    }
}

/// The nodes of an item and of all below it, the item's own node last. An
/// item whose id is no UUID has no node, nor has anything below it.
pub open spec fn nodes_of(item: ItemView, parent: u128) -> Seq<NodeView>
    decreases item, 1nat,
{
    match uuid_value(item.id) {
        Some(id) => nodes_below(item.kids, id, 0).push(
            node_of(
                item,
                id,
                if item.request is Some {
                    NodeKind::Request
                } else {
                    NodeKind::Folder
                },
                Some(parent),
            ),
        ),
        None => Seq::empty(),
    }
}

/// The nodes of the items from `from` on and of all below them.
pub open spec fn nodes_below(kids: Seq<ItemView>, parent: u128, from: int) -> Seq<NodeView>
    decreases kids, kids.len() - from,
{
    if from < 0 || from >= kids.len() {
        Seq::empty()
    } else {
        nodes_of(kids[from], parent) + nodes_below(kids, parent, from + 1)
    }
}

/// The ids of the children of `item` that are UUIDs.
fn child_id_list(item: &PostmanItem) -> (ids: Vec<u128>)
    ensures
        ids@ == child_ids(item_view(*item).kids, 0),
{
    let mut ids: Vec<u128> = Vec::new();
    let mut i: usize = 0;
    let ghost kids = forest(item.item@);
    proof {
        lemma_forest(item.item@);
    }
    while i < item.item.len()
        invariant
            i <= item.item.len(),
            kids == forest(item.item@),
            kids.len() == item.item.len(),
            forall|k: int| 0 <= k < item.item.len() ==> #[trigger] kids[k] == item_view(item.item@[k]),
            ids@ + child_ids(kids, i as int) == child_ids(kids, 0),
        decreases item.item.len() - i,
    {
        let ghost held = ids@;
        match parse_uuid(item.item[i].id.as_str()) {
            Some(id) => {
                ids.push(id);
                proof {
                    assert(ids@ + child_ids(kids, i + 1) =~= held + (seq![id] + child_ids(
                        kids,
                        i + 1,
                    )));
                }
            },
            None => {
                proof {
                    assert(ids@ + child_ids(kids, i + 1) =~= held + (Seq::<u128>::empty()
                        + child_ids(kids, i + 1)));
                }
            },
        }
        i += 1;
    }
    proof {
        assert(ids@ + Seq::<u128>::empty() =~= ids@);
    }
    ids
}

/// The method of the item's request, if it has one.
fn method_of(item: &PostmanItem) -> (m: Option<String>)
    ensures
        match m {
            Some(s) => item.request is Some && s@ == item.request->0.method@,
            None => item.request is None,
        },
{
    match &item.request {
        Some(r) => Some(r.method.clone()),
        None => None,
    }
}

/// Puts the nodes of `item` and of all below it behind `nodes`.
pub fn build_tree_node(item: &PostmanItem, parent_id: u128, nodes: &mut Vec<TreeNode>)
    ensures
        nodes_view(final(nodes)@) == nodes_view(old(nodes)@) + nodes_of(item_view(*item), parent_id),
    decreases item,
{
    match parse_uuid(item.id.as_str()) {
        None => {
            proof {
                assert(nodes_view(nodes@) + Seq::<NodeView>::empty() =~= nodes_view(nodes@));
            }
        },
        Some(id) => {
            let kind = if item.request.is_some() {
                NodeKind::Request
            } else {
                NodeKind::Folder
            };
            let ghost kids = forest(item.item@);
            let ghost start = nodes_view(nodes@);
            let mut i: usize = 0;
            proof {
                lemma_forest(item.item@);
            }
            while i < item.item.len()
                invariant
                    i <= item.item.len(),
                    kids == forest(item.item@),
                    kids.len() == item.item.len(),
                    forall|k: int|
                        0 <= k < item.item.len() ==> #[trigger] kids[k] == item_view(item.item@[k]),
                    nodes_view(nodes@) + nodes_below(kids, id, i as int) == start + nodes_below(
                        kids,
                        id,
                        0,
                    ),
                decreases item.item.len() - i,
            {
                let ghost held = nodes_view(nodes@);
                build_tree_node(&item.item[i], id, nodes);
                proof {
                    assert(nodes_view(nodes@) + nodes_below(kids, id, i + 1) =~= held + (nodes_of(
                        kids[i as int],
                        id,
                    ) + nodes_below(kids, id, i + 1)));
                }
                i += 1;
            }
            let node = TreeNode {
                id,
                name: item.name.clone(),
                kind,
                parent_id: Some(parent_id),
                children: child_id_list(item),
                request_method: method_of(item),
            };
            let ghost held = nodes_view(nodes@);
            nodes.push(node);
            proof {
                assert(held + Seq::<NodeView>::empty() =~= held);
                assert(node@ == node_of(item_view(*item), id, kind, Some(parent_id)));
                assert(nodes_view(nodes@) =~= held.push(node@));
                assert(nodes_view(nodes@) =~= start + nodes_of(item_view(*item), parent_id));
            }
        },
    }
}

/// The nodes of the project that `item` is: those of all below it, then
/// the project's own.
pub open spec fn project_nodes(item: ItemView, project_id: u128) -> Seq<NodeView> {
    nodes_below(item.kids, project_id, 0).push(node_of(item, project_id, NodeKind::Project, None))
}

impl CollectionStore {
    /// The sidebar tree of the project with id `project_id`.
    pub fn build_tree(&self, project_id: u128) -> (r: Result<ProjectTree, String>)
        ensures
            match path_of(self.tree(), uuid_text(project_id)) {
                Some(p) => r is Ok && r->Ok_0.root_id == project_id && nodes_view(r->Ok_0.nodes@)
                    == project_nodes(item_at(self.tree(), p), project_id),
                None => r is Err && r->Err_0@ == "Project not found"@,
            },
    {
        let text = uuid_string(project_id);
        match find_item(&self.collection.item, text.as_str()) {
            None => Err(String::from_str("Project not found")),
            Some(project) => {
                let mut nodes: Vec<TreeNode> = Vec::new();
                let ghost kids = forest(project.item@);
                let mut i: usize = 0;
                proof {
                    lemma_forest(project.item@);
                    assert(nodes_view(nodes@) =~= Seq::<NodeView>::empty());
                }
                while i < project.item.len()
                    invariant
                        i <= project.item.len(),
                        kids == forest(project.item@),
                        kids.len() == project.item.len(),
                        forall|k: int|
                            0 <= k < project.item.len() ==> #[trigger] kids[k] == item_view(
                                project.item@[k],
                            ),
                        nodes_view(nodes@) + nodes_below(kids, project_id, i as int) == nodes_below(
                            kids,
                            project_id,
                            0,
                        ),
                    decreases project.item.len() - i,
                {
                    let ghost held = nodes_view(nodes@);
                    build_tree_node(&project.item[i], project_id, &mut nodes);
                    proof {
                        assert(nodes_view(nodes@) + nodes_below(kids, project_id, i + 1) =~= held
                            + (nodes_of(kids[i as int], project_id) + nodes_below(
                            kids,
                            project_id,
                            i + 1,
                        )));
                    }
                    i += 1;
                }
                let root = TreeNode {
                    id: project_id,
                    name: project.name.clone(),
                    kind: NodeKind::Project,
                    parent_id: None,
                    children: child_id_list(project),
                    request_method: method_of(project),
                };
                let ghost held = nodes_view(nodes@);
                nodes.push(root);
                proof {
                    assert(held + Seq::<NodeView>::empty() =~= held);
                    assert(nodes_view(nodes@) =~= held.push(root@));
                }
                Ok(ProjectTree { root_id: project_id, nodes })
            },
        }
    }
}

/// The index of the last node with id `id`.
pub open spec fn node_index(nodes: Seq<NodeView>, id: u128) -> Option<int>
    decreases nodes.len(),
{
    if nodes.len() == 0 {
        None
    } else if nodes.last().id == id {
        Some(nodes.len() - 1)
    } else {
        node_index(nodes.drop_last(), id)
    }
}

/// The parent of the node with id `id`; none for a node that is not there.
pub open spec fn parent_of(nodes: Seq<NodeView>, id: u128) -> Option<u128> {
    match node_index(nodes, id) {
        Some(i) => nodes[i].parent,
        None => None,
    }
}

/// Whether `ancestor` is met within `fuel` steps from `from` upwards,
/// `from` itself being the first.
pub open spec fn reaches(nodes: Seq<NodeView>, from: Option<u128>, ancestor: u128, fuel: nat) -> bool
    decreases fuel,
{
    if fuel == 0 {
        false
    } else {
        match from {
            None => false,
            Some(id) => id == ancestor || reaches(
                nodes,
                parent_of(nodes, id),
                ancestor,
                (fuel - 1) as nat,
            ),
        }
    }
}

/// The names from the node `from` upwards, within `fuel` steps; the walk
/// ends at a node that is not there.
pub open spec fn names_up(nodes: Seq<NodeView>, from: Option<u128>, fuel: nat) -> Seq<Seq<char>>
    decreases fuel,
{
    if fuel == 0 {
        Seq::empty()
    } else {
        match from {
            None => Seq::empty(),
            Some(id) => match node_index(nodes, id) {
                Some(i) => seq![nodes[i].name] + names_up(nodes, nodes[i].parent, (fuel - 1) as nat),
                None => Seq::empty(),
            },
        }
    }
}

impl ProjectTree {
    /// The index of the last node with id `id`.
    pub fn position(&self, id: u128) -> (r: Option<usize>)
        ensures
            match r {
                Some(i) => node_index(nodes_view(self.nodes@), id) == Some(i as int) && i
                    < self.nodes@.len() && self.nodes@[i as int].id == id,
                None => node_index(nodes_view(self.nodes@), id) is None,
            },
    {
        let mut i: usize = self.nodes.len();
        let ghost all = nodes_view(self.nodes@);
        proof {
            assert(all.take(i as int) =~= all);
        }
        while i > 0
            invariant
                i <= self.nodes.len(),
                all == nodes_view(self.nodes@),
                node_index(all, id) == node_index(all.take(i as int), id),
            decreases i,
        {
            proof {
                assert(all.take(i as int).drop_last() =~= all.take(i - 1));
                assert(all.take(i as int).last() == self.nodes@[i - 1]@);
            }
            i -= 1;
            if self.nodes[i].id == id {
                return Some(i);
            }
        }
        None
    }

    /// The node with id `id`.
    pub fn node(&self, id: u128) -> (r: Option<&TreeNode>)
        ensures
            match r {
                Some(n) => node_index(nodes_view(self.nodes@), id) is Some && n@ == nodes_view(
                    self.nodes@,
                )[node_index(nodes_view(self.nodes@), id)->0] && n.id == id && 0 <= node_index(
                    nodes_view(self.nodes@),
                    id,
                )->0 < self.nodes@.len() && *n == self.nodes@[node_index(
                    nodes_view(self.nodes@),
                    id,
                )->0],
                None => node_index(nodes_view(self.nodes@), id) is None,
            },
    {
        match self.position(id) {
            Some(i) => Some(&self.nodes[i]),
            None => None,
        }
    }

    /// Whether `child` is `ancestor` or lies below it. The walk upwards
    /// takes at most one step more than there are nodes.
    pub fn is_descendant(&self, ancestor: u128, child: u128) -> (r: bool)
        ensures
            r == reaches(
                nodes_view(self.nodes@),
                Some(child),
                ancestor,
                (self.nodes@.len() + 1) as nat,
            ),
    {
        let mut current: Option<u128> = Some(child);
        let mut steps: usize = 0;
        let n = self.nodes.len();
        let ghost all = nodes_view(self.nodes@);
        loop
            invariant
                steps <= n,
                n == self.nodes.len(),
                all == nodes_view(self.nodes@),
                reaches(all, Some(child), ancestor, (n + 1) as nat) == reaches(
                    all,
                    current,
                    ancestor,
                    (n + 1 - steps) as nat,
                ),
            decreases n - steps,
        {
            match current {
                None => {
                    return false;
                },
                Some(id) => {
                    if id == ancestor {
                        return true;
                    }
                    if steps == n {
                        proof {
                            assert(!reaches(all, parent_of(all, id), ancestor, 0));
                        }
                        return false;
                    }
                    current = match self.node(id) {
                        Some(node) => node.parent_id,
                        None => None,
                    };
                    steps += 1;
                },
            }
        }
    }

    /// The names from the project down to the node with id `id`; empty for
    /// a node that is not there.
    pub fn path_for(&self, id: u128) -> (path: Vec<String>)
        ensures
            crate::text::strings_view(path@) == names_up(
                nodes_view(self.nodes@),
                Some(id),
                (self.nodes@.len() + 1) as nat,
            ).reverse(),
    {
        let mut segments: Vec<String> = Vec::new();
        let mut current: Option<u128> = Some(id);
        let mut steps: usize = 0;
        let n = self.nodes.len();
        let ghost all = nodes_view(self.nodes@);
        let ghost whole = names_up(all, Some(id), (n + 1) as nat);
        proof {
            assert(crate::text::strings_view(segments@) =~= Seq::<Seq<char>>::empty());
        }
        loop
            invariant_except_break
                steps <= n,
                crate::text::strings_view(segments@) + names_up(
                    all,
                    current,
                    (n + 1 - steps) as nat,
                ) == whole,
            invariant
                n == self.nodes.len(),
                all == nodes_view(self.nodes@),
                whole == names_up(all, Some(id), (n + 1) as nat),
            ensures
                crate::text::strings_view(segments@) == whole,
            decreases n - steps,
        {
            match current {
                None => {
                    proof {
                        assert(crate::text::strings_view(segments@)
                            + Seq::<Seq<char>>::empty()
                            =~= crate::text::strings_view(segments@));
                    }
                    break ;
                },
                Some(node_id) => {
                    match self.node(node_id) {
                        Some(node) => {
                            let ghost held = crate::text::strings_view(segments@);
                            segments.push(node.name.clone());
                            proof {
                                assert(crate::text::strings_view(segments@)
                                    =~= held.push(node.name@));
                                assert(crate::text::strings_view(segments@) + names_up(
                                    all,
                                    node.parent_id,
                                    (n - steps) as nat,
                                ) =~= held + (seq![node.name@] + names_up(
                                    all,
                                    node.parent_id,
                                    (n - steps) as nat,
                                )));
                            }
                            if steps == n {
                                proof {
                                    assert(names_up(all, node.parent_id, 0) =~= Seq::<
                                        Seq<char>,
                                    >::empty());
                                    assert(crate::text::strings_view(segments@)
                                        + Seq::<Seq<char>>::empty()
                                        =~= crate::text::strings_view(segments@));
                                }
                                break ;
                            }
                            current = node.parent_id;
                            steps += 1;
                        },
                        None => {
                            proof {
                                assert(crate::text::strings_view(segments@)
                                    + Seq::<Seq<char>>::empty()
                                    =~= crate::text::strings_view(segments@));
                            }
                            break ;
                        },
                    }
                },
            }
        }
        let mut path: Vec<String> = Vec::new();
        let mut i: usize = segments.len();
        while i > 0
            invariant
                i <= segments.len(),
                path@.len() == segments.len() - i,
                forall|k: int| 0 <= k < path@.len() ==> path@[k]@ == segments@[segments.len() - 1 - k]@,
            decreases i,
        {
            i -= 1;
            path.push(segments[i].clone());
        }
        proof {
            assert(crate::text::strings_view(path@)
                =~= crate::text::strings_view(segments@).reverse());
        }
        path
    }
}

} // verus!
