//! From the first storage format, one file per request, to a collection;
//! and from a collection to the request files that mirror it.
use crate::storage::collection::{headers_of, headers_view, parse_headers};
use crate::storage::models::SavedRequest;
use crate::storage::postman::{
    parse_uuid, uuid_value, PostmanCollection, PostmanItem, PostmanRequest, PostmanUrl,
};
use crate::storage::tree::{forest, item_view, lemma_forest, ItemView};
use crate::text::{blank, is_blank, lines_of, to_chars};
use vstd::prelude::*;
use vstd::string::StringExecFns;

verus! {

/// `item` is the request that `saved` becomes in a collection: its name,
/// its method by name, its URL as text, its headers read from their text,
/// and its body unless that is blank.
pub open spec fn migrated(saved: SavedRequest, item: PostmanItem) -> bool {
    &&& item.name == saved.name
    &&& uuid_value(item.id@) is Some
    &&& item.item@.len() == 0
    &&& item.response@.len() == 0
    &&& item.request is Some
    &&& item.request->0.method@ == saved.method.name()
    &&& item.request->0.url == PostmanUrl::Raw(saved.url)
    &&& item.request->0.auth is None
    &&& headers_view(item.request->0.header@) == headers_of(lines_of(saved.headers@))
    &&& if is_blank(saved.body@) {
        item.request->0.body is None
    } else {
        item.request->0.body is Some && item.request->0.body->0.is_raw(saved.body@, None)
    }
}

/// The collection named `collection_name` with one project named
/// `project_name` that holds `requests`, in their order.
pub fn migrate_legacy(collection_name: String, project_name: String, requests: Vec<SavedRequest>) -> (c:
    PostmanCollection)
    ensures
        c.info.name == collection_name,
        uuid_value(c.info.postman_id@) is Some,
        c.item@.len() == 1,
        c.item@[0].name == project_name,
        uuid_value(c.item@[0].id@) is Some,
        c.item@[0].request is None,
        c.item@[0].item@.len() == requests@.len(),
        forall|i: int| 0 <= i < requests@.len() ==> migrated(requests@[i], #[trigger] c.item@[0].item@[i]),
{
    let mut collection = PostmanCollection::new(collection_name);
    let mut project = PostmanItem::new_folder(project_name);
    let mut i: usize = 0;
    while i < requests.len()
        invariant
            i <= requests.len(),
            project.name == project_name,
            uuid_value(project.id@) is Some,
            project.request is None,
            project.item@.len() == i,
            forall|k: int| 0 <= k < i ==> migrated(requests@[k], #[trigger] project.item@[k]),
        decreases requests.len() - i,
    {
        let request = &requests[i];
        let method = String::from_str(request.method.as_str());
        let headers = parse_headers(request.headers.as_str());
        let body = if blank(&to_chars(request.body.as_str())) {
            None
        } else {
            Some(request.body.clone())
        };
        let postman_request = PostmanRequest::new(method, request.url.clone(), headers, body);
        let item = PostmanItem::new_request(request.name.clone(), postman_request);
        project.item.push(item);
        i += 1;
    }
    collection.item.push(project);
    collection
}

/// A request of a collection with where it lies: what its file holds beside
/// the request itself.
#[derive(Debug, Clone, Copy, PartialEq, Eq)]
pub struct RequestRef {
    pub id: u128,
    pub parent_id: u128,
    pub project_id: u128,
}

/// The requests in `item` and below it that get a file: those with a UUID
/// as id whose parent has one too. `parent` is the id of the item's parent,
/// `project` that of its project.
pub open spec fn refs_of(item: ItemView, parent: Option<u128>, project: u128) -> Seq<RequestRef>
    decreases item, 1nat,
{
    (if item.request is Some && parent is Some && uuid_value(item.id) is Some {
        seq![RequestRef { id: uuid_value(item.id)->0, parent_id: parent->0, project_id: project }]
    } else {
        Seq::empty()
    }) + refs_below(item.kids, uuid_value(item.id), project, 0)
}

/// The requests that get a file in the items from `from` on and below them.
pub open spec fn refs_below(kids: Seq<ItemView>, parent: Option<u128>, project: u128, from: int) -> Seq<
    RequestRef,
>
    decreases kids, kids.len() - from,
{
    if from < 0 || from >= kids.len() {
        Seq::empty()
    } else {
        refs_of(kids[from], parent, project) + refs_below(kids, parent, project, from + 1)
    }
}

/// The requests that get a file in the projects from `from` on: a project
/// is a top item with a UUID as id.
pub open spec fn refs_in(items: Seq<ItemView>, from: int) -> Seq<RequestRef>
    decreases items.len() - from,
{
    if from < 0 || from >= items.len() {
        Seq::empty()
    } else {
        (match uuid_value(items[from].id) {
            Some(project) => refs_of(items[from], None, project),
            None => Seq::empty(),
        }) + refs_in(items, from + 1)
    }
}

/// Puts the requests that get a file in `item` and below it behind `out`.
pub fn collect_refs(item: &PostmanItem, parent: Option<u128>, project: u128, out: &mut Vec<RequestRef>)
    ensures
        final(out)@ == old(out)@ + refs_of(item_view(*item), parent, project),
    decreases item,
{
    let own = parse_uuid(item.id.as_str());
    if item.request.is_some() {
        match (parent, own) {
            (Some(parent_id), Some(id)) => {
                out.push(RequestRef { id, parent_id, project_id: project });
            },
            _ => {},
        }
    }
    let ghost held = out@;
    let ghost kids = forest(item.item@);
    let mut i: usize = 0;
    proof {
        lemma_forest(item.item@);
    }
    while i < item.item.len()
        invariant
            i <= item.item.len(),
            kids == forest(item.item@),
            kids.len() == item.item.len(),
            forall|k: int| 0 <= k < item.item.len() ==> #[trigger] kids[k] == item_view(item.item@[k]),
            out@ + refs_below(kids, own, project, i as int) == held + refs_below(kids, own, project, 0),
        decreases item.item.len() - i,
    {
        let ghost before = out@;
        collect_refs(&item.item[i], own, project, out);
        proof {
            assert(out@ + refs_below(kids, own, project, i + 1) =~= before + (refs_of(
                kids[i as int],
                own,
                project,
            ) + refs_below(kids, own, project, i + 1)));
        }
        i += 1;
    }
    proof {
        assert(out@ + Seq::<RequestRef>::empty() =~= out@);
        assert(held + refs_below(kids, own, project, 0) =~= old(out)@ + refs_of(
            item_view(*item),
            parent,
            project,
        ));
    }
}

/// The requests of a collection that get a file, project by project.
pub fn request_refs(items: &Vec<PostmanItem>) -> (refs: Vec<RequestRef>)
    ensures
        refs@ == refs_in(forest(items@), 0),
{
    let mut refs: Vec<RequestRef> = Vec::new();
    let ghost all = forest(items@);
    let mut i: usize = 0;
    proof {
        lemma_forest(items@);
    }
    while i < items.len()
        invariant
            i <= items.len(),
            all == forest(items@),
            all.len() == items.len(),
            forall|k: int| 0 <= k < items.len() ==> #[trigger] all[k] == item_view(items@[k]),
            refs@ + refs_in(all, i as int) == refs_in(all, 0),
        decreases items.len() - i,
    {
        let ghost before = refs@;
        match parse_uuid(items[i].id.as_str()) {
            Some(project) => {
                collect_refs(&items[i], None, project, &mut refs);
                proof {
                    assert(refs@ + refs_in(all, i + 1) =~= before + (refs_of(
                        all[i as int],
                        None,
                        project,
                    ) + refs_in(all, i + 1)));
                }
            },
            None => {
                proof {
                    assert(refs@ + refs_in(all, i + 1) =~= before + (Seq::<RequestRef>::empty()
                        + refs_in(all, i + 1)));
                }
            },
        }
        i += 1;
    }
    proof {
        assert(refs@ + Seq::<RequestRef>::empty() =~= refs@);
    }
    refs
}

/// Whether a request file named by `stem` mirrors no request any more.
pub fn is_stale(stem: &str, refs: &Vec<RequestRef>) -> (r: bool)
    ensures
        r == forall|i: int|
            0 <= i < refs@.len() ==> crate::storage::postman::uuid_text((#[trigger] refs@[i]).id)
                != stem@,
{
    let wanted = String::from_str(stem);
    let mut i: usize = 0;
    while i < refs.len()
        invariant
            i <= refs.len(),
            wanted@ == stem@,
            forall|k: int|
                0 <= k < i ==> crate::storage::postman::uuid_text((#[trigger] refs@[k]).id) != stem@,
        decreases refs.len() - i,
    {
        let text = crate::storage::postman::uuid_string(refs[i].id);
        if text == wanted {
            return false;
        }
        i += 1;
    }
    true
}

} // verus!
