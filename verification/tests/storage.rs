use perseus::app::HttpMethod as AppMethod;
use perseus::storage::collection::{find_char, headers_to_text, parse_headers, NodeKind};
use perseus::storage::migrate::{is_stale, migrate_legacy, request_refs, RequestRef};
use perseus::storage::models::{request_id, HttpMethod, SavedRequest};
use perseus::storage::postman::{
    default_form_type, extract_url, new_id, parse_uuid, uuid_string, PostmanAuth, PostmanBody,
    PostmanCollection, PostmanFormParam, PostmanHeader, PostmanItem, PostmanKvPair, PostmanRequest,
    PostmanUrl, PostmanValue,
};
use perseus::storage::project::{
    collection_path, environments_dir, markers, nearest_marked, requests_dir, session_dir,
    session_store_path, state_dir, storage_dir, ui_state_path,
};
use perseus::storage::session_state::{
    load_session_for_root, load_sessions, save_session_for_root, SessionState, SessionStore,
    StoreRead, SESSION_VERSION,
};
use perseus::storage::sort::{chars_le, item_le, sort_items};
use perseus::storage::store::{clone_with_new_ids, ensure_ids, CollectionStore};
use perseus::storage::tree::{collect_request_ids, collection_has_requests, find_item, find_item_path};
use perseus::storage::ui_state::UiState;

fn folder(name: &str, id: &str, children: Vec<PostmanItem>) -> PostmanItem {
    PostmanItem {
        name: name.to_string(),
        id: id.to_string(),
        item: children,
        request: None,
        response: Vec::new(),
    }
}

fn request(name: &str, id: &str) -> PostmanItem {
    PostmanItem {
        name: name.to_string(),
        id: id.to_string(),
        item: Vec::new(),
        request: Some(PostmanRequest::new(
            "GET".to_string(),
            "http://x".to_string(),
            Vec::new(),
            None,
        )),
        response: Vec::new(),
    }
}

fn uid(n: u128) -> String {
    uuid_string(n)
}

fn store(items: Vec<PostmanItem>) -> CollectionStore {
    let mut collection = PostmanCollection::new("c".to_string());
    collection.item = items;
    CollectionStore { root: "/root".to_string(), collection }
}

fn names(items: &[PostmanItem]) -> Vec<String> {
    items.iter().map(|i| i.name.clone()).collect()
}

#[test]
fn parse_headers_reads_key_and_value() {
    let headers = parse_headers("Content-Type: application/json\n  Accept :  */*  \n\nno-colon\n: empty\nX: a:b\r\n");
    let pairs: Vec<(String, String)> =
        headers.iter().map(|h| (h.key.clone(), h.value.clone())).collect();
    assert_eq!(
        pairs,
        vec![
            ("Content-Type".to_string(), "application/json".to_string()),
            ("Accept".to_string(), "*/*".to_string()),
            ("no-colon".to_string(), "".to_string()),
            ("X".to_string(), "a:b".to_string()),
        ]
    );
    assert!(headers.iter().all(|h| h.disabled.is_none()));
    assert!(parse_headers("").is_empty());
    assert!(parse_headers("   \n\t\n").is_empty());
}

#[test]
fn headers_to_text_skips_blank_keys() {
    let headers = vec![
        PostmanHeader { key: "A".into(), value: "1".into(), disabled: None },
        PostmanHeader { key: "  ".into(), value: "x".into(), disabled: None },
        PostmanHeader { key: "B".into(), value: "".into(), disabled: Some(true) },
    ];
    assert_eq!(headers_to_text(&headers), "A: 1\nB: ");
    assert_eq!(headers_to_text(&Vec::new()), "");
    let back = parse_headers(&headers_to_text(&headers));
    assert_eq!(back.len(), 2);
    assert_eq!(back[1].key, "B");
    assert_eq!(find_char(&"a:b".chars().collect(), ':'), 1);
    assert_eq!(find_char(&"ab".chars().collect(), ':'), 2);
}

#[test]
fn node_kinds() {
    assert!(NodeKind::Project.is_container());
    assert!(NodeKind::Folder.is_container());
    assert!(!NodeKind::Request.is_container());
}

#[test]
fn postman_body_constructors() {
    let raw = PostmanBody::raw("text");
    assert_eq!(raw.mode, "raw");
    assert_eq!(raw.raw.as_deref(), Some("text"));
    assert!(raw.options.is_none() && raw.urlencoded.is_none() && raw.formdata.is_none() && raw.file.is_none());
    let json = PostmanBody::json("{}");
    assert_eq!(json.mode, "raw");
    assert_eq!(json.options.unwrap().raw.unwrap().language, "json");
    let xml = PostmanBody::xml("<a/>");
    assert_eq!(xml.raw.as_deref(), Some("<a/>"));
    assert_eq!(xml.options.unwrap().raw.unwrap().language, "xml");
    let enc = PostmanBody::urlencoded(vec![PostmanKvPair { key: "k".into(), value: "v".into(), disabled: None }]);
    assert_eq!(enc.mode, "urlencoded");
    assert_eq!(enc.urlencoded.unwrap().len(), 1);
    assert!(enc.raw.is_none());
    let form = PostmanBody::formdata(vec![PostmanFormParam {
        key: "k".into(),
        value: Some("v".into()),
        src: None,
        param_type: default_form_type(),
        disabled: None,
    }]);
    assert_eq!(form.mode, "formdata");
    assert_eq!(form.formdata.unwrap()[0].param_type, "text");
    let file = PostmanBody::file("/tmp/x");
    assert_eq!(file.mode, "file");
    assert_eq!(file.file.unwrap().src.as_deref(), Some("/tmp/x"));
}

#[test]
fn postman_auth_round_trips() {
    let bearer = PostmanAuth::bearer("tok");
    assert_eq!(bearer.auth_type, "bearer");
    assert_eq!(bearer.get_bearer_token(), Some("tok"));
    assert_eq!(bearer.get_basic_credentials(), None);
    assert_eq!(bearer.get_apikey(), None);
    let basic = PostmanAuth::basic("u", "p");
    assert_eq!(basic.auth_type, "basic");
    assert_eq!(basic.get_basic_credentials(), Some(("u", "p")));
    assert_eq!(basic.get_bearer_token(), None);
    let key = PostmanAuth::apikey("k", "v", "query");
    assert_eq!(key.auth_type, "apikey");
    assert_eq!(key.get_apikey(), Some(("k", "v", "query")));
    let mut partial = PostmanAuth::apikey("k", "v", "query");
    partial.apikey.as_mut().unwrap().pop();
    assert_eq!(partial.get_apikey(), Some(("k", "v", "header")));
    partial.apikey.as_mut().unwrap()[0].value = Some(PostmanValue::Json("1".into()));
    assert_eq!(partial.get_apikey(), None);
}

#[test]
fn postman_request_drops_blank_bodies() {
    let r = PostmanRequest::new("POST".into(), "http://x".into(), Vec::new(), Some("  \n".into()));
    assert!(r.body.is_none());
    assert!(r.auth.is_none());
    assert_eq!(extract_url(&r.url), "http://x");
    let r = PostmanRequest::new("POST".into(), "http://x".into(), Vec::new(), Some(" a ".into()));
    assert_eq!(r.body.unwrap().raw.as_deref(), Some(" a "));
    let r = PostmanRequest::new("GET".into(), "".into(), Vec::new(), None);
    assert!(r.body.is_none());
    assert_eq!(
        extract_url(&PostmanUrl::Object { raw: Some("http://y".into()), json: "{}".into() }),
        "http://y"
    );
    assert_eq!(extract_url(&PostmanUrl::Object { raw: None, json: "{}".into() }), "");
    assert_eq!(extract_url(&PostmanUrl::Other { json: "1".into() }), "");
}

#[test]
fn uuids_parse_and_print() {
    let id = new_id();
    let value = parse_uuid(&id).unwrap();
    assert_eq!(uuid_string(value), id);
    assert_ne!(new_id(), id);
    assert_eq!(parse_uuid("nope"), None);
    assert_eq!(parse_uuid(""), None);
    assert_eq!(uuid_string(0), "00000000-0000-0000-0000-000000000000");
    assert_eq!(parse_uuid("00000000-0000-0000-0000-00000000000A"), Some(10));
    assert_eq!(parse_uuid("0000000000000000000000000000000a"), Some(10));
    let f = PostmanItem::new_folder("f".into());
    assert!(!f.is_request() && parse_uuid(&f.id).is_some() && f.item.is_empty());
    let r = PostmanItem::new_request("r".into(), PostmanRequest::new("GET".into(), "".into(), vec![], None));
    assert!(r.is_request());
    let c = PostmanCollection::new("c".into());
    assert!(parse_uuid(&c.info.postman_id).is_some());
    assert_eq!(c.info.schema, "https://schema.getpostman.com/json/collection/v2.1.0/collection.json");
}

#[test]
fn find_item_searches_depth_first() {
    let items = vec![
        folder("a", "1", vec![request("r1", "x"), folder("b", "2", vec![request("r2", "y")])]),
        folder("c", "3", vec![request("dup", "y")]),
    ];
    assert_eq!(find_item_path(&items, "1"), Some(vec![0]));
    assert_eq!(find_item_path(&items, "x"), Some(vec![0, 0]));
    assert_eq!(find_item_path(&items, "y"), Some(vec![0, 1, 0]));
    assert_eq!(find_item_path(&items, "3"), Some(vec![1]));
    assert_eq!(find_item_path(&items, "zz"), None);
    assert_eq!(find_item(&items, "y").unwrap().name, "r2");
    assert_eq!(find_item(&items, "2").unwrap().name, "b");
    assert!(find_item(&items, "zz").is_none());
    assert!(find_item(&Vec::new(), "1").is_none());
}

#[test]
fn requests_are_found_and_collected() {
    let a = uid(1);
    let b = uid(2);
    let items = vec![folder("p", &uid(9), vec![
        request("r1", &a),
        folder("f", "not-a-uuid", vec![request("r2", &b), request("bad", "bad")]),
    ])];
    assert!(collection_has_requests(&items));
    assert!(!collection_has_requests(&vec![folder("p", "1", vec![folder("q", "2", vec![])])]));
    assert!(!collection_has_requests(&Vec::new()));
    let mut out = vec![7];
    collect_request_ids(&items[0], &mut out);
    assert_eq!(out, vec![7, 1, 2]);
}

#[test]
fn sort_orders_every_level_stably() {
    let mut items = vec![
        folder("b", "2", vec![request("Z", "1"), request("a", "2"), request("A", "1")]),
        folder("B", "1", vec![]),
        folder("a", "3", vec![]),
    ];
    assert!(sort_items(&mut items));
    assert_eq!(names(&items), vec!["a", "B", "b"]);
    assert_eq!(names(&items[2].item), vec!["A", "a", "Z"]);
    assert!(!sort_items(&mut items));
    let mut nested = vec![folder("x", "1", vec![request("b", "1"), request("a", "2")])];
    assert!(sort_items(&mut nested));
    assert_eq!(names(&nested[0].item), vec!["a", "b"]);
    assert!(chars_le(&vec![], &vec!['a']));
    assert!(chars_le(&vec!['a'], &vec!['a']));
    assert!(!chars_le(&vec!['b'], &vec!['a', 'z']));
    assert!(item_le(&request("a", "1"), &request("A", "2")));
    assert!(!item_le(&request("a", "2"), &request("A", "1")));
}

#[test]
fn ensure_ids_replaces_only_invalid_ids() {
    let good = uid(5);
    let mut collection = PostmanCollection::new("c".into());
    let kept = collection.info.postman_id.clone();
    collection.item = vec![folder("p", "", vec![request("r", &good), request("s", "junk")])];
    assert!(ensure_ids(&mut collection));
    assert_eq!(collection.info.postman_id, kept);
    assert!(parse_uuid(&collection.item[0].id).is_some());
    assert_eq!(collection.item[0].item[0].id, good);
    assert!(parse_uuid(&collection.item[0].item[1].id).is_some());
    assert!(!ensure_ids(&mut collection));
    collection.info.postman_id = " ".into();
    assert!(ensure_ids(&mut collection));
    assert!(parse_uuid(&collection.info.postman_id).is_some());
}

#[test]
fn store_lists_and_adds_projects() {
    let mut s = store(vec![folder("b", &uid(2), vec![]), folder("x", "junk", vec![])]);
    let projects = s.list_projects();
    assert_eq!(projects.len(), 1);
    assert_eq!((projects[0].id, projects[0].name.as_str()), (2, "b"));
    let id = s.add_project("a".into()).unwrap();
    assert_eq!(names(&s.collection.item), vec!["a", "b", "x"]);
    assert_eq!(s.collection.item[0].id, uid(id));
    assert_eq!(s.get_item(id).unwrap().name, "a");
    assert!(s.get_item(77).is_none());
}

#[test]
fn store_adds_folders_and_requests() {
    let mut s = store(vec![folder("p", &uid(1), vec![request("r", &uid(2))])]);
    let f = s.add_folder(1, "inbox".into()).unwrap();
    assert_eq!(names(&s.collection.item[0].item), vec!["inbox", "r"]);
    assert_eq!(s.collection.item[0].item[0].id, uid(f));
    let req = PostmanRequest::new("GET".into(), "u".into(), vec![], None);
    let r = s.add_request(f, "first".into(), req.clone()).unwrap();
    assert_eq!(s.get_item(r).unwrap().name, "first");
    assert!(s.get_item(r).unwrap().is_request());
    assert_eq!(s.add_folder(2, "x".into()).unwrap_err(), "Cannot add folder inside a request");
    assert_eq!(s.add_request(2, "x".into(), req.clone()).unwrap_err(), "Cannot add request inside a request");
    assert_eq!(s.add_folder(99, "x".into()).unwrap_err(), "Parent not found for add folder");
    assert_eq!(s.add_request(99, "x".into(), req).unwrap_err(), "Parent not found for add request");
    assert_eq!(names(&s.collection.item[0].item), vec!["inbox", "r"]);
}

#[test]
fn store_renames_deletes_and_updates() {
    let mut s = store(vec![folder("p", &uid(1), vec![request("a", &uid(2)), request("b", &uid(3))])]);
    s.rename_item(2, "z".into()).unwrap();
    assert_eq!(names(&s.collection.item[0].item), vec!["b", "z"]);
    assert_eq!(s.rename_item(9, "q".into()).unwrap_err(), "Item not found for rename");
    let req = PostmanRequest::new("PUT".into(), "u".into(), vec![], None);
    s.update_request(3, req).unwrap();
    assert_eq!(s.get_item(3).unwrap().request.as_ref().unwrap().method, "PUT");
    assert_eq!(
        s.update_request(9, PostmanRequest::new("PUT".into(), "u".into(), vec![], None)).unwrap_err(),
        "Item not found for update"
    );
    s.delete_item(3).unwrap();
    assert_eq!(names(&s.collection.item[0].item), vec!["z"]);
    assert_eq!(s.delete_item(3).unwrap_err(), "Item not found for delete");
    s.delete_item(1).unwrap();
    assert!(s.collection.item.is_empty());
}

#[test]
fn store_moves_items() {
    let mut s = store(vec![folder("p", &uid(1), vec![
        folder("f", &uid(2), vec![]),
        request("r", &uid(3)),
        request("s", &uid(4)),
    ])]);
    s.move_item(3, 2).unwrap();
    assert_eq!(names(&s.collection.item[0].item), vec!["f", "s"]);
    assert_eq!(names(&s.collection.item[0].item[0].item), vec!["r"]);
    assert_eq!(s.move_item(9, 2).unwrap_err(), "Item not found for move");
    // the destination is looked for after the item is taken out
    assert_eq!(s.move_item(4, 3).unwrap_err(), "Cannot move into a request");
    assert!(s.get_item(4).is_none());
    assert_eq!(s.move_item(2, 2).unwrap_err(), "Destination not found");
    assert!(s.get_item(2).is_none());
}

#[test]
fn store_duplicates_with_fresh_ids() {
    let mut s = store(vec![folder("p", &uid(1), vec![folder("f", &uid(2), vec![request("r", &uid(3))])])]);
    let copy = s.duplicate_item(2).unwrap();
    assert_ne!(copy, 2);
    assert_eq!(names(&s.collection.item[0].item), vec!["f", "f"]);
    let dup = s.get_item(copy).unwrap();
    assert_eq!(names(&dup.item), vec!["r"]);
    assert_ne!(dup.item[0].id, uid(3));
    assert!(dup.item[0].is_request());
    assert_eq!(s.duplicate_item(99).unwrap_err(), "Item not found for duplicate");
    let c = clone_with_new_ids(&request("r", "1"));
    assert_eq!(c.name, "r");
    assert!(parse_uuid(&c.id).is_some());
    assert_eq!(c.request.unwrap().method, "GET");
}

#[test]
fn store_normalizes_what_it_read() {
    let mut s = store(vec![folder("b", "junk", vec![]), folder("a", &uid(1), vec![])]);
    assert!(s.normalize());
    assert_eq!(names(&s.collection.item), vec!["a", "b"]);
    assert!(parse_uuid(&s.collection.item[1].id).is_some());
    assert!(!s.normalize());
}

#[test]
fn tree_is_built_from_the_project_down() {
    let s = store(vec![folder("p", &uid(1), vec![
        folder("f", &uid(2), vec![request("r", &uid(3)), request("bad", "junk")]),
        request("s", &uid(4)),
    ])]);
    let tree = s.build_tree(1).unwrap();
    assert_eq!(tree.root_id, 1);
    let ids: Vec<u128> = tree.nodes.iter().map(|n| n.id).collect();
    assert_eq!(ids, vec![3, 2, 4, 1]);
    let root = tree.node(1).unwrap();
    assert_eq!(root.kind, NodeKind::Project);
    assert_eq!(root.parent_id, None);
    assert_eq!(root.children, vec![2, 4]);
    let f = tree.node(2).unwrap();
    assert_eq!((f.kind, f.parent_id, f.children.clone()), (NodeKind::Folder, Some(1), vec![3]));
    let r = tree.node(3).unwrap();
    assert_eq!((r.kind, r.parent_id), (NodeKind::Request, Some(2)));
    assert_eq!(r.request_method.as_deref(), Some("GET"));
    assert!(tree.node(99).is_none());
    assert!(tree.is_descendant(1, 3));
    assert!(tree.is_descendant(2, 3));
    assert!(tree.is_descendant(3, 3));
    assert!(!tree.is_descendant(3, 2));
    assert!(!tree.is_descendant(4, 3));
    assert!(!tree.is_descendant(1, 99));
    assert_eq!(tree.path_for(3), vec!["p", "f", "r"]);
    assert_eq!(tree.path_for(1), vec!["p"]);
    assert!(tree.path_for(99).is_empty());
    assert_eq!(s.build_tree(99).unwrap_err(), "Project not found");
    let sub = s.build_tree(2).unwrap();
    assert_eq!(sub.nodes.len(), 2);
}

#[test]
fn legacy_requests_become_a_project() {
    let saved = vec![
        SavedRequest::with_id("req_1".into(), "one".into(), "http://a".into(), HttpMethod::Post,
            "A: 1\nB: 2".into(), "{}".into()),
        SavedRequest::with_id("req_2".into(), "two".into(), "http://b".into(), HttpMethod::Options,
            "".into(), "  ".into()),
    ];
    let c = migrate_legacy("col".into(), "Imported".into(), saved);
    assert_eq!(c.info.name, "col");
    assert_eq!(c.item.len(), 1);
    assert_eq!(c.item[0].name, "Imported");
    assert_eq!(names(&c.item[0].item), vec!["one", "two"]);
    let one = c.item[0].item[0].request.as_ref().unwrap();
    assert_eq!(one.method, "POST");
    assert_eq!(extract_url(&one.url), "http://a");
    assert_eq!(one.header.len(), 2);
    assert_eq!(one.body.as_ref().unwrap().raw.as_deref(), Some("{}"));
    let two = c.item[0].item[1].request.as_ref().unwrap();
    assert_eq!(two.method, "OPTIONS");
    assert!(two.body.is_none() && two.header.is_empty());
}

#[test]
fn request_files_mirror_the_requests() {
    let items = vec![
        folder("p", &uid(1), vec![
            request("r", &uid(3)),
            folder("f", "junk", vec![request("lost", &uid(5))]),
            folder("g", &uid(6), vec![request("deep", &uid(7)), request("bad", "junk")]),
        ]),
        folder("no-project", "junk", vec![request("x", &uid(8))]),
        request("top", &uid(9)),
    ];
    let refs = request_refs(&items);
    assert_eq!(
        refs,
        vec![
            RequestRef { id: 3, parent_id: 1, project_id: 1 },
            RequestRef { id: 7, parent_id: 6, project_id: 1 },
        ]
    );
    assert!(!is_stale(&uid(3), &refs));
    assert!(is_stale(&uid(5), &refs));
    assert!(is_stale("anything", &refs));
}

#[test]
fn saved_requests_get_an_id_from_the_clock() {
    assert_eq!(request_id(0), "req_0");
    assert_eq!(request_id(1700000000123), "req_1700000000123");
    assert_eq!(request_id(u128::MAX), format!("req_{}", u128::MAX));
    let r = SavedRequest::new("n".into(), "u".into(), HttpMethod::Put, "h".into(), "b".into());
    assert!(r.id.starts_with("req_"));
    assert!(r.id[4..].chars().all(|c| c.is_ascii_digit()) && r.id.len() > 4);
    assert_eq!((r.name.as_str(), r.url.as_str(), r.method), ("n", "u", HttpMethod::Put));
    let s = SavedRequest::from_request_state("n".into(), "u", AppMethod::Head, "h", "b");
    assert_eq!(s.method, HttpMethod::Head);
    assert_eq!((s.headers.as_str(), s.body.as_str()), ("h", "b"));
    assert_eq!(HttpMethod::from(AppMethod::Patch), HttpMethod::Patch);
    assert_eq!(AppMethod::from(HttpMethod::Delete), AppMethod::Delete);
    assert_eq!(HttpMethod::default(), HttpMethod::Get);
    assert_eq!(HttpMethod::Options.as_str(), "OPTIONS");
}

#[test]
fn project_paths() {
    assert_eq!(storage_dir(Some("/p")).as_deref(), Some("/p/.perseus"));
    assert_eq!(storage_dir(None), None);
    assert_eq!(collection_path(Some("/p")).as_deref(), Some("/p/.perseus/collection.json"));
    assert_eq!(requests_dir(Some("/p/")).as_deref(), Some("/p/.perseus/requests"));
    assert_eq!(ui_state_path(Some("/p")).as_deref(), Some("/p/.perseus/ui.json"));
    assert_eq!(environments_dir(Some("/p")).as_deref(), Some("/p/.perseus/environments"));
    assert_eq!(collection_path(None), None);
    assert_eq!(state_dir(Some("/x"), Some("/h")).as_deref(), Some("/x"));
    assert_eq!(state_dir(Some("  "), Some("/h")).as_deref(), Some("/h/.local/state"));
    assert_eq!(state_dir(None, Some(" ")), None);
    assert_eq!(state_dir(None, None), None);
    assert_eq!(session_dir(None, Some("/h")).as_deref(), Some("/h/.local/state/perseus"));
    assert_eq!(
        session_store_path(Some("/x"), None).as_deref(),
        Some("/x/perseus/session.json")
    );
    assert_eq!(markers(), vec![".git", "Cargo.toml", "package.json", ".perseus"]);
    assert_eq!(nearest_marked(&vec![false, true, true]), Some(1));
    assert_eq!(nearest_marked(&vec![false, false]), None);
    assert_eq!(nearest_marked(&Vec::new()), None);
}

fn session(project: &str) -> SessionState {
    SessionState {
        active_project_id: project.to_string(),
        sidebar_width: 30,
        sidebar_visible: true,
        selection_id: None,
        current_request_id: None,
        expanded: Vec::new(),
        request_tab: "Headers".into(),
        response_tab: "Body".into(),
    }
}

#[test]
fn sessions_are_kept_by_root() {
    let store = SessionStore::default();
    assert_eq!(store.version, SESSION_VERSION);
    assert_eq!(load_session_for_root(StoreRead::Absent, "/a").unwrap().map(|s| s.active_project_id), None);
    assert_eq!(
        save_session_for_root(StoreRead::Read(store.clone()), "  ", session("x")).unwrap_err(),
        "Session root key is empty"
    );
    let store = save_session_for_root(StoreRead::Absent, "/a", session("one")).unwrap();
    assert_eq!(store.version, SESSION_VERSION);
    let store = save_session_for_root(StoreRead::Read(store), "/b", session("two")).unwrap();
    let store = save_session_for_root(StoreRead::Read(store), "/a", session("three")).unwrap();
    let load = |key: &str| load_session_for_root(StoreRead::Read(store.clone()), key).unwrap();
    assert_eq!(load("/a").unwrap().active_project_id, "three");
    assert_eq!(load("/b").unwrap().active_project_id, "two");
    assert!(load("/c").is_none());
    assert!(load("").is_none());
    assert!(store.check_version().is_ok());
    let mut other = store.clone();
    other.version = 7;
    assert_eq!(other.check_version().unwrap_err(), "Unsupported session store version: 7");
}

#[test]
fn a_store_that_cannot_be_had_is_an_error() {
    let mut old = save_session_for_root(StoreRead::Absent, "/a", session("one")).unwrap();
    old.version = 2;
    let unreadable = || StoreRead::Unreadable("denied".to_string());
    let unparsable = || StoreRead::Unparsable("expected value at line 1".to_string());
    assert_eq!(
        load_session_for_root(StoreRead::Read(old.clone()), "/a").unwrap_err(),
        "Unsupported session store version: 2"
    );
    assert_eq!(
        load_session_for_root(unreadable(), "/a").unwrap_err(),
        "Failed to read session store: denied"
    );
    assert_eq!(
        load_session_for_root(unparsable(), "/a").unwrap_err(),
        "Failed to parse session store: expected value at line 1"
    );
    assert_eq!(
        save_session_for_root(StoreRead::Read(old.clone()), "/b", session("x")).unwrap_err(),
        "Unsupported session store version: 2"
    );
    assert_eq!(
        save_session_for_root(unreadable(), "/b", session("x")).unwrap_err(),
        "Failed to read session store: denied"
    );
    assert_eq!(
        save_session_for_root(unparsable(), "/b", session("x")).unwrap_err(),
        "Failed to parse session store: expected value at line 1"
    );
    // a blank key is answered before the store is looked at
    assert!(load_session_for_root(StoreRead::Read(old.clone()), " ").unwrap().is_none());
    assert!(load_session_for_root(unreadable(), "").unwrap().is_none());
    assert_eq!(
        save_session_for_root(unparsable(), "\t", session("x")).unwrap_err(),
        "Session root key is empty"
    );
    assert_eq!(load_sessions(StoreRead::Absent).unwrap().sessions.len(), 0);
    assert_eq!(load_sessions(StoreRead::Absent).unwrap().version, SESSION_VERSION);
    assert_eq!(load_sessions(StoreRead::Read(old.clone())).unwrap_err(), "Unsupported session store version: 2");
    old.version = SESSION_VERSION;
    assert_eq!(load_sessions(StoreRead::Read(old)).unwrap().sessions.len(), 1);
    assert_eq!(load_sessions(unreadable()).unwrap_err(), "Failed to read session store: denied");
}

#[test]
fn ui_state_is_made_from_its_parts() {
    let ui = UiState::new("p".into(), 40);
    assert_eq!((ui.active_project_id.as_str(), ui.sidebar_width), ("p", 40));
}
