//! The sidebar: the lines that show a project's tree, and the moves of the
//! selection in it.
use crate::app::{sidebar_tree_prefix, tree_prefix, Method, TextInput};
use crate::text::spliced;
use crate::storage::collection::NodeKind;
use crate::storage::store::{node_index, nodes_view, NodeView, ProjectTree, TreeNode};
use crate::storage::sort::{order_of, places_view, sorted_order};
use crate::storage::store::{names_up, parent_of, reaches};
use crate::ui::style::{cells_of, merged, Cell, Color, Line, Span, Style};
use crate::text::{
    contains, contains_text, from_chars, join, joined, lowercase, texts_view, to_chars, uppercase,
};
use vstd::prelude::*;
use vstd::utf8::*;
use vstd::string::StringExecFns;

verus! {

/// One line of the sidebar.
#[derive(Debug, Clone)]
pub struct SidebarLine {
    pub id: u128,
    pub prefix: String,
    pub marker: String,
    pub label: String,
    pub kind: NodeKind,
    pub method: Option<Method>,
}

/// A popup of the sidebar.
#[derive(Debug, Clone)]
pub enum SidebarPopup {
    Add(TextInput),
    Rename(TextInput),
    Search(TextInput),
    ProjectSwitch { index: usize },
    Move { index: usize, candidates: Vec<u128> },
    DeleteConfirm,
}

/// What the sidebar remembers: the selected node, the expanded nodes, the
/// search and the open popup.
#[derive(Debug, Clone)]
pub struct SidebarState {
    pub selection_id: Option<u128>,
    pub expanded: Vec<u128>,
    pub search_query: String,
    pub popup: Option<SidebarPopup>,
}

/// A line of the sidebar as a value; the method by its name.
pub struct LineView {
    pub id: u128,
    pub prefix: Seq<char>,
    pub marker: Seq<char>,
    pub label: Seq<char>,
    pub kind: NodeKind,
    pub method: Option<Seq<char>>,
}

impl View for SidebarLine {
    type V = LineView;

    open spec fn view(&self) -> LineView {
        LineView {
            id: self.id,
            prefix: self.prefix@,
            marker: self.marker@,
            label: self.label@,
            kind: self.kind,
            method: match self.method {
                Some(m) => Some(m.name()),
                None => None,
            },
        }
    }
}

/// Lines as values.
pub open spec fn lines_view(lines: Seq<SidebarLine>) -> Seq<LineView> {
    Seq::new(lines.len(), |i: int| lines[i]@)
}

/// The marker of a node: an open or closed triangle for what can hold
/// others, a bullet for a request.
pub open spec fn marker_of(kind: NodeKind, expanded: bool) -> Seq<char> {
    if kind == NodeKind::Request {
        "\u{2022}"@
    } else if expanded {
        "\u{25be}"@
    } else {
        "\u{25b8}"@
    }
}

/// The line of a node.
pub open spec fn line_of(
    node: NodeView,
    expanded: bool,
    ancestors_last: Seq<bool>,
    is_last: bool,
    is_root: bool,
) -> LineView {
    LineView {
        id: node.id,
        prefix: if is_root {
            Seq::empty()
        } else {
            tree_prefix(ancestors_last, is_last)
        },
        marker: marker_of(node.kind, expanded),
        label: node.name,
        kind: node.kind,
        method: if node.kind == NodeKind::Request && node.method is Some {
            Some(uppercase(node.method->0))
        } else {
            None
        },
    }
}

/// The lines of the node `id` and, where it is expanded, of what lies below
/// it, to a depth of `fuel`. A node that is not there has no line.
pub open spec fn lines_from(
    nodes: Seq<NodeView>,
    expanded: Seq<u128>,
    id: u128,
    ancestors_last: Seq<bool>,
    is_last: bool,
    is_root: bool,
    fuel: nat,
) -> Seq<LineView>
    decreases fuel, 0nat,
{
    if fuel == 0 {
        Seq::empty()
    } else {
        match node_index(nodes, id) {
            None => Seq::empty(),
            Some(i) => {
                let node = nodes[i];
                let open = expanded.contains(id);
                let below_last = if is_root {
                    ancestors_last
                } else {
                    ancestors_last.push(is_last)
                };
                seq![line_of(node, open, ancestors_last, is_last, is_root)] + (if node.kind
                    != NodeKind::Request && open {
                    lines_below(nodes, expanded, node.children, 0, below_last, (fuel - 1) as nat)
                } else {
                    Seq::empty()
                })
            },
        }
    }
}

/// The lines of the children from `from` on.
pub open spec fn lines_below(
    nodes: Seq<NodeView>,
    expanded: Seq<u128>,
    children: Seq<u128>,
    from: int,
    ancestors_last: Seq<bool>,
    fuel: nat,
) -> Seq<LineView>
    decreases fuel, 1nat, children.len() - from,
{
    if from < 0 || from >= children.len() {
        Seq::empty()
    } else {
        lines_from(
            nodes,
            expanded,
            children[from],
            ancestors_last,
            from + 1 == children.len(),
            false,
            fuel,
        ) + lines_below(nodes, expanded, children, from + 1, ancestors_last, fuel)
    }
}

/// Whether `id` is among `ids`.
pub fn has_id(ids: &Vec<u128>, id: u128) -> (r: bool)
    ensures
        r == ids@.contains(id),
{
    let mut i: usize = 0;
    while i < ids.len()
        invariant
            i <= ids.len(),
            forall|k: int| 0 <= k < i ==> ids@[k] != id,
        decreases ids.len() - i,
    {
        if ids[i] == id {
            return true;
        }
        i += 1;
    }
    false
}

/// The line of `node`.
fn make_line(node: &TreeNode, open: bool, ancestors_last: &Vec<bool>, is_last: bool, is_root: bool) -> (line:
    SidebarLine)
    ensures
        line@ == line_of(node@, open, ancestors_last@, is_last, is_root),
{
    let marker = match node.kind {
        NodeKind::Request => "\u{2022}",
        _ => if open {
            "\u{25be}"
        } else {
            "\u{25b8}"
        },
    };
    let method = match node.kind {
        NodeKind::Request => match &node.request_method {
            Some(m) => Some(Method::from_str(m.as_str())),
            None => None,
        },
        _ => None,
    };
    let prefix = if is_root {
        String::new()
    } else {
        sidebar_tree_prefix(ancestors_last, is_last)
    };
    SidebarLine {
        id: node.id,
        prefix,
        marker: String::from_str(marker),
        label: node.name.clone(),
        kind: node.kind,
        method,
    }
}

/// Puts the lines of the node `id` and of what shows below it behind `out`.
pub fn collect_sidebar_lines(
    tree: &ProjectTree,
    expanded: &Vec<u128>,
    id: u128,
    ancestors_last: &Vec<bool>,
    is_last: bool,
    is_root: bool,
    fuel: usize,
    out: &mut Vec<SidebarLine>,
)
    ensures
        lines_view(final(out)@) == lines_view(old(out)@) + lines_from(
            nodes_view(tree.nodes@),
            expanded@,
            id,
            ancestors_last@,
            is_last,
            is_root,
            fuel as nat,
        ),
    decreases fuel,
{
    let ghost nodes = nodes_view(tree.nodes@);
    let ghost start = lines_view(out@);
    if fuel == 0 {
        proof {
            assert(start + Seq::<LineView>::empty() =~= start);
        }
        return;
    }
    match tree.node(id) {
        None => {
            proof {
                assert(start + Seq::<LineView>::empty() =~= start);
            }
        },
        Some(node) => {
            let open = has_id(expanded, id);
            let line = make_line(node, open, ancestors_last, is_last, is_root);
            out.push(line);
            proof {
                assert(lines_view(out@) =~= start.push(line@));
            }
            let container = match node.kind {
                NodeKind::Request => false,
                _ => true,
            };
            if container && open {
                let mut next_ancestors: Vec<bool> = Vec::new();
                let mut a: usize = 0;
                while a < ancestors_last.len()
                    invariant
                        a <= ancestors_last.len(),
                        next_ancestors@ == ancestors_last@.take(a as int),
                    decreases ancestors_last.len() - a,
                {
                    next_ancestors.push(ancestors_last[a]);
                    a += 1;
                    proof {
                        assert(next_ancestors@ =~= ancestors_last@.take(a as int));
                    }
                }
                proof {
                    assert(ancestors_last@.take(a as int) =~= ancestors_last@);
                }
                if !is_root {
                    next_ancestors.push(is_last);
                }
                let ghost held = lines_view(out@);
                let ghost kids = node@.children;
                let mut index: usize = 0;
                while index < node.children.len()
                    invariant
                        index <= node.children.len(),
                        kids == node.children@,
                        nodes == nodes_view(tree.nodes@),
                        fuel > 0,
                        lines_view(out@) + lines_below(
                            nodes,
                            expanded@,
                            kids,
                            index as int,
                            next_ancestors@,
                            (fuel - 1) as nat,
                        ) == held + lines_below(
                            nodes,
                            expanded@,
                            kids,
                            0,
                            next_ancestors@,
                            (fuel - 1) as nat,
                        ),
                    decreases node.children.len() - index,
                {
                    let child_is_last = index + 1 == node.children.len();
                    let ghost before = lines_view(out@);
                    collect_sidebar_lines(
                        tree,
                        expanded,
                        node.children[index],
                        &next_ancestors,
                        child_is_last,
                        false,
                        fuel - 1,
                        out,
                    );
                    proof {
                        assert(lines_view(out@) + lines_below(
                            nodes,
                            expanded@,
                            kids,
                            index + 1,
                            next_ancestors@,
                            (fuel - 1) as nat,
                        ) =~= before + (lines_from(
                            nodes,
                            expanded@,
                            kids[index as int],
                            next_ancestors@,
                            child_is_last,
                            false,
                            (fuel - 1) as nat,
                        ) + lines_below(
                            nodes,
                            expanded@,
                            kids,
                            index + 1,
                            next_ancestors@,
                            (fuel - 1) as nat,
                        )));
                    }
                    index += 1;
                }
                proof {
                    assert(lines_view(out@) + Seq::<LineView>::empty() =~= lines_view(out@));
                    assert(lines_view(out@) =~= start + lines_from(
                        nodes,
                        expanded@,
                        id,
                        ancestors_last@,
                        is_last,
                        is_root,
                        fuel as nat,
                    ));
                }
            } else {
                proof {
                    assert(lines_view(out@) =~= start + (seq![line@] + Seq::<LineView>::empty()));
                }
            }
        },
    }
}

/// The lines of the whole tree as the sidebar shows it without a search.
pub fn sidebar_lines(tree: &ProjectTree, expanded: &Vec<u128>) -> (lines: Vec<SidebarLine>)
    ensures
        lines_view(lines@) == lines_from(
            nodes_view(tree.nodes@),
            expanded@,
            tree.root_id,
            Seq::empty(),
            true,
            true,
            tree.nodes@.len() as nat,
        ),
{
    let mut lines: Vec<SidebarLine> = Vec::new();
    let none: Vec<bool> = Vec::new();
    proof {
        assert(lines_view(lines@) =~= Seq::<LineView>::empty());
    }
    collect_sidebar_lines(tree, expanded, tree.root_id, &none, true, true, tree.nodes.len(), &mut lines);
    proof {
        let got = lines_from(
            nodes_view(tree.nodes@),
            expanded@,
            tree.root_id,
            Seq::empty(),
            true,
            true,
            tree.nodes@.len() as nat,
        );
        assert(Seq::<LineView>::empty() + got =~= got);
    }
    lines
}

/// The place of the line with id `selected`; 0 where nothing is selected
/// or the line does not show.
pub open spec fn selected_index(selected: Option<u128>, lines: Seq<LineView>) -> int
    decreases lines.len(),
{
    match selected {
        None => 0,
        Some(id) => if lines.len() == 0 {
            0
        } else if lines[0].id == id {
            0
        } else if exists|k: int| 1 <= k < lines.len() && lines[k].id == id {
            1 + selected_index(selected, lines.drop_first())
        } else {
            0
        },
    }
}

/// The first place of an id is its selected index.
pub proof fn lemma_selected_index(id: u128, lines: Seq<LineView>, at: int)
    requires
        0 <= at <= lines.len(),
        forall|k: int| 0 <= k < at ==> lines[k].id != id,
        at < lines.len() ==> lines[at].id == id,
    ensures
        selected_index(Some(id), lines) == if at < lines.len() {
            at
        } else {
            0
        },
    decreases lines.len(),
{
    if lines.len() > 0 && lines[0].id != id {
        let rest = lines.drop_first();
        if at < lines.len() {
            assert(1 <= at < lines.len() && lines[at].id == id);
            assert forall|k: int| 0 <= k < at - 1 implies rest[k].id != id by {
                assert(rest[k] == lines[k + 1]);
            }
            assert(rest[at - 1] == lines[at]);
            lemma_selected_index(id, rest, at - 1);
        } else {
            assert(!exists|k: int| 1 <= k < lines.len() && lines[k].id == id);
        }
    }
}

pub fn sidebar_selected_index(selected: Option<u128>, lines: &Vec<SidebarLine>) -> (index: usize)
    ensures
        index == selected_index(selected, lines_view(lines@)),
        lines@.len() > 0 ==> index < lines@.len(),
{
    match selected {
        None => 0,
        Some(id) => {
            let mut i: usize = 0;
            while i < lines.len()
                invariant
                    i <= lines.len(),
                    selected == Some(id),
                    forall|k: int| 0 <= k < i ==> lines_view(lines@)[k].id != id,
                decreases lines.len() - i,
            {
                if lines[i].id == id {
                    proof {
                        assert(lines_view(lines@)[i as int].id == id);
                        lemma_selected_index(id, lines_view(lines@), i as int);
                    }
                    return i;
                }
                proof {
                    assert(lines_view(lines@)[i as int].id != id);
                }
                i += 1;
            }
            proof {
                lemma_selected_index(id, lines_view(lines@), i as int);
            }
            0
        },
    }
}

/// The index `delta` lines from `index`, kept within `count` lines.
pub open spec fn moved_index(index: int, delta: int, count: int) -> int {
    if index + delta < 0 {
        0
    } else if index + delta > count - 1 {
        count - 1
    } else {
        index + delta
    }
}

/// The id of the line `delta` lines from the selected one, kept within the
/// lines; none where there are no lines.
pub fn sidebar_move_selection(selected: Option<u128>, lines: &Vec<SidebarLine>, delta: i32) -> (r:
    Option<u128>)
    ensures
        lines@.len() == 0 ==> r is None,
        lines@.len() > 0 ==> r == Some(
            lines@[moved_index(
                selected_index(selected, lines_view(lines@)),
                delta as int,
                lines@.len() as int,
            )].id,
        ),
{
    if lines.len() == 0 {
        return None;
    }
    let index = sidebar_selected_index(selected, lines);
    let last = lines.len() - 1;
    let target = if delta < 0 {
        let back = (-(delta as i64)) as u32 as usize;
        if back > index {
            0
        } else {
            index - back
        }
    } else {
        let forward = delta as u32 as usize;
        if forward > last - index {
            last
        } else {
            index + forward
        }
    };
    Some(lines[target].id)
}

/// The label of a node in a search: the names from the project down to it,
/// with slashes between them.
pub open spec fn path_label(nodes: Seq<NodeView>, id: u128) -> Seq<char> {
    joined(names_up(nodes, Some(id), (nodes.len() + 1) as nat).reverse(), seq!['/'])
}

/// Whether a node is a hit of the search for `query`: it is no project and
/// its name holds the query, both in lowercase.
pub open spec fn is_hit(node: NodeView, query: Seq<char>) -> bool {
    node.kind != NodeKind::Project && contains_text(lowercase(node.name), lowercase(query))
}

/// The line of a hit.
pub open spec fn hit_line(nodes: Seq<NodeView>, node: NodeView) -> LineView {
    LineView {
        id: node.id,
        prefix: Seq::empty(),
        marker: Seq::empty(),
        label: path_label(nodes, node.id),
        kind: node.kind,
        method: if node.kind == NodeKind::Request && node.method is Some {
            Some(uppercase(node.method->0))
        } else {
            None
        },
    }
}

/// The lines of the hits among the first `upto` nodes, in the order of the
/// nodes.
pub open spec fn hits(nodes: Seq<NodeView>, query: Seq<char>, upto: int) -> Seq<LineView>
    decreases upto,
{
    if upto <= 0 {
        Seq::empty()
    } else if is_hit(nodes[upto - 1], query) {
        hits(nodes, query, upto - 1).push(hit_line(nodes, nodes[upto - 1]))
    } else {
        hits(nodes, query, upto - 1)
    }
}

/// The labels of lines in lowercase.
pub open spec fn label_keys(lines: Seq<LineView>) -> Seq<Seq<char>> {
    Seq::new(lines.len(), |i: int| lowercase(lines[i].label))
}

/// `lines` taken in the order `order`.
pub open spec fn in_order(lines: Seq<LineView>, order: Seq<int>) -> Seq<LineView> {
    Seq::new(order.len(), |i: int| lines[order[i]])
}

/// The lines of a search for `query`: one for each hit, labelled with its
/// path, in the order of the labels without regard to case.
pub fn sidebar_search_lines_for(tree: &ProjectTree, query: &str) -> (lines: Vec<SidebarLine>)
    ensures
        lines_view(lines@) == in_order(
            hits(nodes_view(tree.nodes@), query@, tree.nodes@.len() as int),
            order_of(
                label_keys(hits(nodes_view(tree.nodes@), query@, tree.nodes@.len() as int)),
                hits(nodes_view(tree.nodes@), query@, tree.nodes@.len() as int).len() as int,
            ),
        ),
{
    let ghost nodes = nodes_view(tree.nodes@);
    let wanted = to_chars(query.to_lowercase().as_str());
    let mut found: Vec<SidebarLine> = Vec::new();
    let mut keys: Vec<Vec<char>> = Vec::new();
    let mut slash: Vec<char> = Vec::new();
    slash.push('/');
    let mut i: usize = 0;
    proof {
        assert(lines_view(found@) =~= hits(nodes, query@, 0));
        assert(texts_view(keys@) =~= label_keys(lines_view(found@)));
    }
    while i < tree.nodes.len()
        invariant
            i <= tree.nodes.len(),
            nodes == nodes_view(tree.nodes@),
            wanted@ == lowercase(query@),
            slash@ == seq!['/'],
            lines_view(found@) == hits(nodes, query@, i as int),
            texts_view(keys@) == label_keys(lines_view(found@)),
        decreases tree.nodes.len() - i,
    {
        let node = &tree.nodes[i];
        let ghost held = lines_view(found@);
        let ghost held_keys = texts_view(keys@);
        proof {
            assert(nodes[i as int] == node@);
        }
        let is_project = match node.kind {
            NodeKind::Project => true,
            _ => false,
        };
        if !is_project {
            let name = to_chars(node.name.as_str().to_lowercase().as_str());
            if contains(&name, &wanted) {
                let parts = tree.path_for(node.id);
                let mut texts: Vec<Vec<char>> = Vec::new();
                let mut p: usize = 0;
                while p < parts.len()
                    invariant
                        p <= parts.len(),
                        texts_view(texts@) == crate::text::strings_view(parts@).take(
                            p as int,
                        ),
                    decreases parts.len() - p,
                {
                    let ghost had = texts_view(texts@);
                    texts.push(to_chars(parts[p].as_str()));
                    p += 1;
                    proof {
                        assert(texts_view(texts@) =~~= had.push(parts@[p - 1]@));
                        assert(texts_view(texts@) =~~= crate::text::strings_view(
                            parts@,
                        ).take(p as int));
                    }
                }
                proof {
                    assert(crate::text::strings_view(parts@).take(p as int)
                        =~= crate::text::strings_view(parts@));
                }
                let label = join(&texts, &slash);
                let label_text = from_chars(&label);
                let key = to_chars(label_text.as_str().to_lowercase().as_str());
                let method = match node.kind {
                    NodeKind::Request => match &node.request_method {
                        Some(m) => Some(Method::from_str(m.as_str())),
                        None => None,
                    },
                    _ => None,
                };
                let line = SidebarLine {
                    id: node.id,
                    prefix: String::new(),
                    marker: String::new(),
                    label: label_text,
                    kind: node.kind,
                    method,
                };
                proof {
                    assert(line@ == hit_line(nodes, node@));
                }
                found.push(line);
                keys.push(key);
                proof {
                    assert(lines_view(found@) =~= held.push(line@));
                    assert(texts_view(keys@) =~~= held_keys.push(lowercase(line@.label)));
                    assert(texts_view(keys@) =~~= label_keys(lines_view(found@)));
                }
            }
        }
        i += 1;
    }
    let order = sorted_order(&keys);
    let mut lines: Vec<SidebarLine> = Vec::new();
    let mut k: usize = 0;
    while k < order.len()
        invariant
            k <= order.len(),
            order@.len() == found@.len(),
            forall|j: int| 0 <= j < order@.len() ==> (#[trigger] order@[j]) < found@.len(),
            lines@.len() == k,
            forall|j: int| 0 <= j < k ==> (#[trigger] lines@[j])@ == found@[order@[j] as int]@,
        decreases order.len() - k,
    {
        lines.push(copy_line(&found[order[k]]));
        k += 1;
    }
    proof {
        assert(lines_view(lines@) =~= in_order(lines_view(found@), places_view(order@)));
    }
    lines
}

/// A copy of a line.
pub fn copy_line(line: &SidebarLine) -> (copy: SidebarLine)
    ensures
        copy@ == line@,
{
    SidebarLine {
        id: line.id,
        prefix: line.prefix.clone(),
        marker: line.marker.clone(),
        label: line.label.clone(),
        kind: line.kind,
        method: match &line.method {
            Some(Method::Standard(m)) => Some(Method::Standard(*m)),
            Some(Method::Custom(s)) => Some(Method::Custom(s.clone())),
            None => None,
        },
    }
}

/// `ids` with `id`, which is added at the end if it is not among them.
pub open spec fn with_id(ids: Seq<u128>, id: u128) -> Seq<u128> {
    if ids.contains(id) {
        ids
    } else {
        ids.push(id)
    }
}

/// Adds `id` to `ids` if it is not among them.
pub fn add_id(ids: &mut Vec<u128>, id: u128)
    ensures
        final(ids)@ == with_id(old(ids)@, id),
{
    if !has_id(ids, id) {
        ids.push(id);
    }
}

/// `ids` without `id`.
pub open spec fn without_id(ids: Seq<u128>, id: u128) -> Seq<u128>
    decreases ids.len(),
{
    if ids.len() == 0 {
        Seq::empty()
    } else if ids.last() == id {
        without_id(ids.drop_last(), id)
    } else {
        without_id(ids.drop_last(), id).push(ids.last())
    }
}

/// Takes `id` out of `ids`.
pub fn remove_id(ids: &mut Vec<u128>, id: u128)
    ensures
        final(ids)@ == without_id(old(ids)@, id),
{
    let mut kept: Vec<u128> = Vec::new();
    let mut i: usize = 0;
    proof {
        assert(old(ids)@.take(0) =~= Seq::<u128>::empty());
    }
    while i < ids.len()
        invariant
            i <= ids.len(),
            ids@ == old(ids)@,
            kept@ == without_id(ids@.take(i as int), id),
        decreases ids.len() - i,
    {
        proof {
            assert(ids@.take(i + 1).drop_last() =~= ids@.take(i as int));
        }
        if ids[i] != id {
            kept.push(ids[i]);
        }
        i += 1;
    }
    proof {
        assert(ids@.take(i as int) =~= ids@);
    }
    *ids = kept;
}

/// The expanded nodes after the node `id` and what lies above it were made
/// to show, walking up at most `fuel` steps: every project and folder met
/// on the way is expanded.
pub open spec fn expanded_up(nodes: Seq<NodeView>, expanded: Seq<u128>, from: Option<u128>, fuel: nat) -> Seq<
    u128,
>
    decreases fuel,
{
    if fuel == 0 {
        expanded
    } else {
        match from {
            None => expanded,
            Some(id) => match node_index(nodes, id) {
                None => expanded,
                Some(i) => expanded_up(
                    nodes,
                    if nodes[i].kind == NodeKind::Request {
                        expanded
                    } else {
                        with_id(expanded, id)
                    },
                    nodes[i].parent,
                    (fuel - 1) as nat,
                ),
            },
        }
    }
}

/// Expands the node `id`, if it can hold others, and all that lies above it.
pub fn expand_sidebar_ancestors(tree: &ProjectTree, expanded: &mut Vec<u128>, id: u128)
    ensures
        final(expanded)@ == expanded_up(
            nodes_view(tree.nodes@),
            old(expanded)@,
            Some(id),
            (tree.nodes@.len() + 1) as nat,
        ),
{
    let n = tree.nodes.len();
    let ghost nodes = nodes_view(tree.nodes@);
    let ghost goal = expanded_up(nodes, expanded@, Some(id), (n + 1) as nat);
    let mut current: Option<u128> = Some(id);
    let mut steps: usize = 0;
    loop
        invariant_except_break
            steps <= n,
            expanded_up(nodes, expanded@, current, (n + 1 - steps) as nat) == goal,
        invariant
            n == tree.nodes.len(),
            nodes == nodes_view(tree.nodes@),
        ensures
            expanded@ == goal,
        decreases n - steps,
    {
        let ghost before = expanded@;
        let ghost fuel = (n + 1 - steps) as nat;
        proof {
            assert(expanded_up(nodes, before, current, fuel) == goal);
        }
        match current {
            None => {
                break ;
            },
            Some(node_id) => match tree.node(node_id) {
                None => {
                    break ;
                },
                Some(node) => {
                    match node.kind {
                        NodeKind::Request => {},
                        _ => {
                            add_id(expanded, node_id);
                        },
                    }
                    proof {
                        assert(expanded_up(nodes, expanded@, node.parent_id, (fuel - 1) as nat)
                            == goal);
                    }
                    if steps == n {
                        break ;
                    }
                    current = node.parent_id;
                    steps += 1;
                },
            },
        }
    }
}

/// What Enter or `l` does on the selected node.
#[derive(Debug, Clone, Copy, PartialEq, Eq)]
pub enum SidebarStep {
    /// Nothing is selected, or the selected node is not there.
    Stay,
    /// Open the request.
    Open(u128),
    /// The node was expanded or collapsed.
    Toggled,
    /// The selection went to the node.
    Selected(u128),
}

/// Enter or `l` on the selected node: a request is to be opened, a project
/// or folder changes between expanded and collapsed.
pub fn sidebar_expand_or_open(tree: &ProjectTree, state: &mut SidebarState) -> (r: SidebarStep)
    ensures
        final(state).selection_id == old(state).selection_id,
        final(state).search_query == old(state).search_query,
        final(state).popup == old(state).popup,
        match old(state).selection_id {
            None => r == SidebarStep::Stay && final(state).expanded == old(state).expanded,
            Some(id) => match node_index(nodes_view(tree.nodes@), id) {
                None => r == SidebarStep::Stay && final(state).expanded == old(state).expanded,
                Some(i) => if tree.nodes@[i].kind == NodeKind::Request {
                    r == SidebarStep::Open(id) && final(state).expanded == old(state).expanded
                } else {
                    r == SidebarStep::Toggled && final(state).expanded@ == if old(state).expanded@.contains(id) {
                        without_id(old(state).expanded@, id)
                    } else {
                        old(state).expanded@.push(id)
                    }
                },
            },
        },
{
    match state.selection_id {
        None => SidebarStep::Stay,
        Some(id) => match tree.node(id) {
            None => SidebarStep::Stay,
            Some(node) => match node.kind {
                NodeKind::Request => SidebarStep::Open(id),
                _ => {
                    if has_id(&state.expanded, id) {
                        remove_id(&mut state.expanded, id);
                    } else {
                        state.expanded.push(id);
                    }
                    SidebarStep::Toggled
                },
            },
        },
    }
}

/// `h` on the selected node: an expanded project or folder collapses; any
/// other node hands the selection to its parent, if it has one.
pub fn sidebar_collapse_or_parent(tree: &ProjectTree, state: &mut SidebarState) -> (r: SidebarStep)
    ensures
        final(state).search_query == old(state).search_query,
        final(state).popup == old(state).popup,
        match old(state).selection_id {
            None => r == SidebarStep::Stay && *final(state) == *old(state),
            Some(id) => match node_index(nodes_view(tree.nodes@), id) {
                None => r == SidebarStep::Stay && *final(state) == *old(state),
                Some(i) => if tree.nodes@[i].kind != NodeKind::Request && old(state).expanded@.contains(id) {
                    r == SidebarStep::Toggled && final(state).expanded@ == without_id(
                        old(state).expanded@,
                        id,
                    ) && final(state).selection_id == old(state).selection_id
                } else {
                    final(state).expanded == old(state).expanded && match tree.nodes@[i].parent_id {
                        Some(parent) => r == SidebarStep::Selected(parent) && final(state).selection_id == Some(parent),
                        None => r == SidebarStep::Stay && final(state).selection_id == old(state).selection_id,
                    }
                },
            },
        },
{
    match state.selection_id {
        None => SidebarStep::Stay,
        Some(id) => match tree.node(id) {
            None => SidebarStep::Stay,
            Some(node) => {
                let container = match node.kind {
                    NodeKind::Request => false,
                    _ => true,
                };
                if container && has_id(&state.expanded, id) {
                    remove_id(&mut state.expanded, id);
                    SidebarStep::Toggled
                } else {
                    match node.parent_id {
                        Some(parent) => {
                            state.selection_id = Some(parent);
                            SidebarStep::Selected(parent)
                        },
                        None => SidebarStep::Stay,
                    }
                }
            },
        },
    }
}

/// The node below which an added item goes: the selected project or
/// folder, the parent of a selected request, or the active project.
pub fn add_parent_id(tree: &ProjectTree, selection: Option<u128>, active_project: u128) -> (r: u128)
    ensures
        r == match selection {
            None => active_project,
            Some(id) => match node_index(nodes_view(tree.nodes@), id) {
                None => active_project,
                Some(i) => if tree.nodes@[i].kind == NodeKind::Request {
                    match tree.nodes@[i].parent_id {
                        Some(p) => p,
                        None => active_project,
                    }
                } else {
                    id
                },
            },
        },
{
    match selection {
        None => active_project,
        Some(id) => match tree.node(id) {
            None => active_project,
            Some(node) => match node.kind {
                NodeKind::Request => match node.parent_id {
                    Some(p) => p,
                    None => active_project,
                },
                _ => id,
            },
        },
    }
}

/// Whether the child `child` of some node is a project or folder named `name`.
pub open spec fn is_folder_named(nodes: Seq<NodeView>, child: u128, name: Seq<char>) -> bool {
    match node_index(nodes, child) {
        Some(i) => nodes[i].kind != NodeKind::Request && nodes[i].name == name,
        None => false,
    }
}

/// The first child of the node `parent_id` that is a folder named `name`.
pub fn find_child_folder(tree: &ProjectTree, parent_id: u128, name: &str) -> (r: Option<u128>)
    ensures
        match node_index(nodes_view(tree.nodes@), parent_id) {
            None => r is None,
            Some(p) => {
                let kids = tree.nodes@[p].children@;
                match r {
                    Some(id) => exists|k: int|
                        0 <= k < kids.len() && kids[k] == id && is_folder_named(
                            nodes_view(tree.nodes@),
                            id,
                            name@,
                        ) && forall|j: int|
                            0 <= j < k ==> !is_folder_named(
                                nodes_view(tree.nodes@),
                                #[trigger] kids[j],
                                name@,
                            ),
                    None => forall|j: int|
                        0 <= j < kids.len() ==> !is_folder_named(
                            nodes_view(tree.nodes@),
                            #[trigger] kids[j],
                            name@,
                        ),
                }
            },
        },
{
    let wanted = String::from_str(name);
    match tree.node(parent_id) {
        None => None,
        Some(parent) => {
            let mut k: usize = 0;
            while k < parent.children.len()
                invariant
                    k <= parent.children.len(),
                    wanted@ == name@,
                    node_index(nodes_view(tree.nodes@), parent_id) is Some,
                    0 <= node_index(nodes_view(tree.nodes@), parent_id)->0 < tree.nodes@.len(),
                    *parent == tree.nodes@[node_index(nodes_view(tree.nodes@), parent_id)->0],
                    forall|j: int|
                        0 <= j < k ==> !is_folder_named(
                            nodes_view(tree.nodes@),
                            #[trigger] parent.children@[j],
                            name@,
                        ),
                decreases parent.children.len() - k,
            {
                let child = parent.children[k];
                match tree.node(child) {
                    Some(node) => {
                        let container = match node.kind {
                            NodeKind::Request => false,
                            _ => true,
                        };
                        if container && node.name == wanted {
                            proof {
                                assert(parent.children@[k as int] == child);
                                assert(is_folder_named(nodes_view(tree.nodes@), child, name@));
                            }
                            return Some(child);
                        }
                    },
                    None => {},
                }
                k += 1;
            }
            None
        },
    }
}

/// The ids among `ids` that name a node, in their order.
pub open spec fn known_ids(nodes: Seq<NodeView>, ids: Seq<u128>) -> Seq<u128>
    decreases ids.len(),
{
    if ids.len() == 0 {
        Seq::empty()
    } else if node_index(nodes, ids.last()) is Some {
        known_ids(nodes, ids.drop_last()).push(ids.last())
    } else {
        known_ids(nodes, ids.drop_last())
    }
}

/// Brings the sidebar in line with a tree that was built anew: what is
/// expanded but no longer there is forgotten, the active project is
/// expanded, and a selection that is no longer there goes to the active
/// project.
pub fn rebuild_sidebar(tree: &ProjectTree, state: &mut SidebarState, active_project: u128)
    ensures
        final(state).expanded@ == with_id(
            known_ids(nodes_view(tree.nodes@), old(state).expanded@),
            active_project,
        ),
        final(state).selection_id == match old(state).selection_id {
            Some(id) => if node_index(nodes_view(tree.nodes@), id) is Some {
                Some(id)
            } else {
                Some(active_project)
            },
            None => Some(active_project),
        },
        final(state).search_query == old(state).search_query,
        final(state).popup == old(state).popup,
{
    let mut kept: Vec<u128> = Vec::new();
    let mut i: usize = 0;
    proof {
        assert(state.expanded@.take(0) =~= Seq::<u128>::empty());
    }
    while i < state.expanded.len()
        invariant
            i <= state.expanded.len(),
            *state == *old(state),
            kept@ == known_ids(nodes_view(tree.nodes@), state.expanded@.take(i as int)),
        decreases state.expanded.len() - i,
    {
        proof {
            assert(state.expanded@.take(i + 1).drop_last() =~= state.expanded@.take(i as int));
        }
        if tree.node(state.expanded[i]).is_some() {
            kept.push(state.expanded[i]);
        }
        i += 1;
    }
    proof {
        assert(state.expanded@.take(i as int) =~= state.expanded@);
    }
    add_id(&mut kept, active_project);
    state.expanded = kept;
    let known = match state.selection_id {
        Some(id) => tree.node(id).is_some(),
        None => false,
    };
    if !known {
        state.selection_id = Some(active_project);
    }
}

/// Whether the selected node may move into `dest`, and what it is. A node
/// cannot move into itself or below itself, and a project cannot move.
pub fn move_check(tree: &ProjectTree, id: u128, dest: u128) -> (r: Result<Option<NodeKind>, String>)
    ensures
        match r {
            Err(e) => if reaches(
                nodes_view(tree.nodes@),
                Some(dest),
                id,
                (tree.nodes@.len() + 1) as nat,
            ) {
                e@ == "Cannot move into a descendant"@
            } else {
                e@ == "Projects cannot be moved"@ && node_index(nodes_view(tree.nodes@), id) is Some
                    && tree.nodes@[node_index(nodes_view(tree.nodes@), id)->0].kind
                    == NodeKind::Project
            },
            Ok(kind) => !reaches(
                nodes_view(tree.nodes@),
                Some(dest),
                id,
                (tree.nodes@.len() + 1) as nat,
            ) && match node_index(nodes_view(tree.nodes@), id) {
                Some(i) => kind == Some(tree.nodes@[i].kind) && tree.nodes@[i].kind
                    != NodeKind::Project,
                None => kind is None,
            },
        },
{
    if tree.is_descendant(id, dest) {
        return Err(String::from_str("Cannot move into a descendant"));
    }
    match tree.node(id) {
        None => Ok(None),
        Some(node) => match node.kind {
            NodeKind::Project => Err(String::from_str("Projects cannot be moved")),
            kind => Ok(Some(kind)),
        },
    }
}

/// The ids of the projects and folders among the first `upto` nodes.
pub open spec fn containers(nodes: Seq<NodeView>, upto: int) -> Seq<u128>
    decreases upto,
{
    if upto <= 0 {
        Seq::empty()
    } else if nodes[upto - 1].kind != NodeKind::Request {
        containers(nodes, upto - 1).push(nodes[upto - 1].id)
    } else {
        containers(nodes, upto - 1)
    }
}

/// The ids of all projects and folders: what is expanded when all is.
pub fn container_ids(tree: &ProjectTree) -> (ids: Vec<u128>)
    ensures
        ids@ == containers(nodes_view(tree.nodes@), tree.nodes@.len() as int),
{
    let mut ids: Vec<u128> = Vec::new();
    let mut i: usize = 0;
    while i < tree.nodes.len()
        invariant
            i <= tree.nodes.len(),
            ids@ == containers(nodes_view(tree.nodes@), i as int),
        decreases tree.nodes.len() - i,
    {
        proof {
            assert(nodes_view(tree.nodes@)[i as int] == tree.nodes@[i as int]@);
        }
        match tree.nodes[i].kind {
            NodeKind::Request => {},
            _ => {
                ids.push(tree.nodes[i].id);
            },
        }
        i += 1;
    }
    ids
}

/// Whether the node may take the selected node `selected` in: it is a
/// project or folder, not the selected node and not below it.
pub open spec fn takes_in(nodes: Seq<NodeView>, node: NodeView, selected: u128) -> bool {
    node.id != selected && node.kind != NodeKind::Request && !reaches(
        nodes,
        Some(node.id),
        selected,
        (nodes.len() + 1) as nat,
    )
}

/// The ids of the nodes among the first `upto` that may take `selected` in.
pub open spec fn takers(nodes: Seq<NodeView>, selected: u128, upto: int) -> Seq<u128>
    decreases upto,
{
    if upto <= 0 {
        Seq::empty()
    } else if takes_in(nodes, nodes[upto - 1], selected) {
        takers(nodes, selected, upto - 1).push(nodes[upto - 1].id)
    } else {
        takers(nodes, selected, upto - 1)
    }
}

/// The paths of nodes in lowercase.
pub open spec fn path_keys(nodes: Seq<NodeView>, ids: Seq<u128>) -> Seq<Seq<char>> {
    Seq::new(ids.len(), |i: int| lowercase(path_label(nodes, ids[i])))
}

/// Where the selected node can move: the projects and folders that are not
/// the node itself nor below it, in the order of their paths without regard
/// to case. A project moves nowhere.
pub fn move_candidates(tree: &ProjectTree, selected: u128) -> (ids: Vec<u128>)
    ensures
        ({
            let nodes = nodes_view(tree.nodes@);
            let all = takers(nodes, selected, nodes.len() as int);
            let is_project = match node_index(nodes, selected) {
                Some(i) => nodes[i].kind == NodeKind::Project,
                None => false,
            };
            if is_project {
                ids@.len() == 0
            } else {
                &&& ids@.len() == all.len()
                &&& forall|k: int|
                    0 <= k < ids@.len() ==> #[trigger] ids@[k] == all[order_of(
                        path_keys(nodes, all),
                        all.len() as int,
                    )[k]]
            }
        }),
{
    let ghost nodes = nodes_view(tree.nodes@);
    match tree.node(selected) {
        Some(node) => match node.kind {
            NodeKind::Project => {
                return Vec::new();
            },
            _ => {},
        },
        None => {},
    }
    let mut found: Vec<u128> = Vec::new();
    let mut keys: Vec<Vec<char>> = Vec::new();
    let mut slash: Vec<char> = Vec::new();
    slash.push('/');
    let mut i: usize = 0;
    proof {
        assert(texts_view(keys@) =~= path_keys(nodes, found@));
    }
    while i < tree.nodes.len()
        invariant
            i <= tree.nodes.len(),
            nodes == nodes_view(tree.nodes@),
            slash@ == seq!['/'],
            found@ == takers(nodes, selected, i as int),
            texts_view(keys@) == path_keys(nodes, found@),
        decreases tree.nodes.len() - i,
    {
        let node = &tree.nodes[i];
        proof {
            assert(nodes[i as int] == node@);
        }
        let container = match node.kind {
            NodeKind::Request => false,
            _ => true,
        };
        if node.id != selected && container && !tree.is_descendant(selected, node.id) {
            let parts = tree.path_for(node.id);
            let mut texts: Vec<Vec<char>> = Vec::new();
            let mut p: usize = 0;
            while p < parts.len()
                invariant
                    p <= parts.len(),
                    texts_view(texts@) == crate::text::strings_view(parts@).take(
                        p as int,
                    ),
                decreases parts.len() - p,
            {
                let ghost had = texts_view(texts@);
                texts.push(to_chars(parts[p].as_str()));
                p += 1;
                proof {
                    assert(texts_view(texts@) =~~= had.push(parts@[p - 1]@));
                    assert(texts_view(texts@) =~~= crate::text::strings_view(
                        parts@,
                    ).take(p as int));
                }
            }
            proof {
                assert(crate::text::strings_view(parts@).take(p as int)
                    =~= crate::text::strings_view(parts@));
            }
            let label = from_chars(&join(&texts, &slash));
            let key = to_chars(label.as_str().to_lowercase().as_str());
            let ghost held = found@;
            let ghost held_keys = texts_view(keys@);
            found.push(node.id);
            keys.push(key);
            proof {
                assert(texts_view(keys@) =~~= held_keys.push(lowercase(path_label(nodes, node.id))));
                assert(texts_view(keys@) =~~= path_keys(nodes, found@));
            }
        }
        i += 1;
    }
    let order = sorted_order(&keys);
    let mut ids: Vec<u128> = Vec::new();
    let mut k: usize = 0;
    while k < order.len()
        invariant
            k <= order.len(),
            order@.len() == found@.len(),
            forall|j: int| 0 <= j < order@.len() ==> (#[trigger] order@[j]) < found@.len(),
            ids@.len() == k,
            forall|j: int| 0 <= j < k ==> #[trigger] ids@[j] == found@[order@[j] as int],
        decreases order.len() - k,
    {
        ids.push(found[order[k]]);
        k += 1;
    }
    proof {
        assert forall|j: int| 0 <= j < ids@.len() implies #[trigger] ids@[j] == found@[order_of(
            path_keys(nodes, found@),
            found@.len() as int,
        )[j]] by {
            assert(places_view(order@)[j] == order@[j]);
        }
    }
    ids
}

/// The first place of `id` among `ids`; 0 where it is not among them.
pub open spec fn first_place(ids: Seq<u128>, id: u128) -> int
    decreases ids.len(),
{
    if ids.len() == 0 {
        0
    } else if ids[0] == id {
        0
    } else if ids.drop_first().contains(id) {
        1 + first_place(ids.drop_first(), id)
    } else {
        0
    }
}

/// `first_place` of an id whose first occurrence is at `at`, or that does
/// not occur where `at` is the length.
pub proof fn lemma_first_place(ids: Seq<u128>, id: u128, at: int)
    requires
        0 <= at <= ids.len(),
        forall|k: int| 0 <= k < at ==> ids[k] != id,
        at < ids.len() ==> ids[at] == id,
    ensures
        first_place(ids, id) == if at < ids.len() {
            at
        } else {
            0
        },
    decreases ids.len(),
{
    if ids.len() > 0 && ids[0] != id {
        let rest = ids.drop_first();
        if at < ids.len() {
            assert(rest[at - 1] == id);
            assert(rest.contains(id));
            assert forall|k: int| 0 <= k < at - 1 implies rest[k] != id by {
                assert(rest[k] == ids[k + 1]);
            }
            lemma_first_place(rest, id, at - 1);
        } else {
            if rest.contains(id) {
                let k = choose|k: int| 0 <= k < rest.len() && rest[k] == id;
                assert(ids[k + 1] == id);
            }
        }
    }
}

/// The first place of `id` among `ids`; 0 where it is not among them.
pub fn place_of(ids: &Vec<u128>, id: u128) -> (r: usize)
    ensures
        r == first_place(ids@, id),
        ids@.len() > 0 ==> r < ids@.len(),
{
    let mut k: usize = 0;
    while k < ids.len()
        invariant
            k <= ids.len(),
            forall|j: int| 0 <= j < k ==> ids@[j] != id,
        decreases ids.len() - k,
    {
        if ids[k] == id {
            proof {
                lemma_first_place(ids@, id, k as int);
            }
            return k;
        }
        k += 1;
    }
    proof {
        lemma_first_place(ids@, id, k as int);
    }
    0
}

/// Where `]` moves the selected node: into the sibling just before it, if
/// that is a project or folder.
pub open spec fn indent_target_of(nodes: Seq<NodeView>, selected: Option<u128>) -> Option<u128> {
    match selected {
        None => None,
        Some(id) => match parent_of(nodes, id) {
            None => None,
            Some(p) => match node_index(nodes, p) {
                None => None,
                Some(i) => {
                    let at = first_place(nodes[i].children, id);
                    if at == 0 {
                        None
                    } else {
                        let before = nodes[i].children[at - 1];
                        match node_index(nodes, before) {
                            Some(j) => if nodes[j].kind != NodeKind::Request {
                                Some(before)
                            } else {
                                None
                            },
                            None => None,
                        }
                    }
                },
            },
        },
    }
}

/// Where `]` moves the selected node.
pub fn indent_target(tree: &ProjectTree, selected: Option<u128>) -> (r: Option<u128>)
    ensures
        r == indent_target_of(nodes_view(tree.nodes@), selected),
{
    let id = match selected {
        Some(id) => id,
        None => {
            return None;
        },
    };
    let parent_id = match tree.node(id) {
        Some(node) => match node.parent_id {
            Some(p) => p,
            None => {
                return None;
            },
        },
        None => {
            return None;
        },
    };
    let parent = match tree.node(parent_id) {
        Some(p) => p,
        None => {
            return None;
        },
    };
    let index = place_of(&parent.children, id);
    if index == 0 {
        return None;
    }
    let candidate = parent.children[index - 1];
    match tree.node(candidate) {
        Some(node) => match node.kind {
            NodeKind::Request => None,
            _ => Some(candidate),
        },
        None => None,
    }
}

/// Where `[` moves the selected node: into the parent of its parent.
pub fn outdent_target(tree: &ProjectTree, selected: Option<u128>) -> (r: Option<u128>)
    ensures
        r == match selected {
            Some(id) => match parent_of(nodes_view(tree.nodes@), id) {
                Some(p) => parent_of(nodes_view(tree.nodes@), p),
                None => None,
            },
            None => None,
        },
{
    let id = match selected {
        Some(id) => id,
        None => {
            return None;
        },
    };
    let parent_id = match tree.node(id) {
        Some(node) => match node.parent_id {
            Some(p) => p,
            None => {
                return None;
            },
        },
        None => {
            return None;
        },
    };
    match tree.node(parent_id) {
        Some(parent) => parent.parent_id,
        None => None,
    }
}

/// The style of a row: white on dark gray where it is selected, white else.
pub open spec fn row_style(selected: bool) -> Style {
    if selected {
        Style::plain().with_bg(Color::DarkGray).with_fg(Color::White)
    } else {
        Style::plain().with_fg(Color::White)
    }
}

/// `n` blanks.
pub open spec fn blanks(n: nat) -> Seq<char> {
    Seq::new(n, |i: int| ' ')
}

/// What a row of the sidebar says before it is padded: the drawing of the
/// tree, then the method in its color and the label of a request, or the
/// marker and the label of a project or folder.
pub open spec fn row_text(line: SidebarLine, selected: bool) -> Seq<Cell> {
    let base = row_style(selected);
    crate::ui::colors::styled(line.prefix@, base) + (if line.kind == NodeKind::Request {
        (match line.method {
            Some(m) => crate::ui::colors::styled(
                m.name(),
                base.with_fg(crate::ui::colors::method_color_of(m)),
            ) + crate::ui::colors::styled(" "@, base),
            None => Seq::empty(),
        }) + crate::ui::colors::styled(line.label@, base)
    } else if line.marker@.len() == 0 {
        crate::ui::colors::styled(line.label@, base)
    } else {
        crate::ui::colors::styled(line.marker@ + " "@ + line.label@, base)
    })
}

/// A row of the sidebar: its text, padded with blanks to one column less
/// than the width.
pub open spec fn row_cells(line: SidebarLine, selected: bool, width: usize) -> Seq<Cell> {
    let text = row_text(line, selected);
    if width - 1 > text.len() {
        text + crate::ui::colors::styled(
            blanks((width - 1 - text.len()) as nat),
            row_style(selected),
        )
    } else {
        text
    }
}

/// A row of the sidebar as a styled line.
pub fn sidebar_row(line: &SidebarLine, selected: bool, width: usize) -> (row: Line)
    ensures
        row.cells() == row_cells(*line, selected, width),
        merged(row.spans@),
{
    let base = if selected {
        Style::new().bg(Color::DarkGray).fg(Color::White)
    } else {
        Style::new().fg(Color::White)
    };
    let mut spans: Vec<Span> = Vec::new();
    let blank = to_chars(" ");
    proof {
        reveal_strlit(" ");
        assert(cells_of(spans@) =~= Seq::<Cell>::empty());
    }
    crate::ui::colors::push_styled(&mut spans, &to_chars(line.prefix.as_str()), base);
    let is_request = match line.kind {
        NodeKind::Request => true,
        _ => false,
    };
    if is_request {
        match &line.method {
            Some(m) => {
                let tint = base.fg(crate::ui::colors::method_color(m));
                crate::ui::colors::push_styled(&mut spans, &to_chars(m.as_str()), tint);
                crate::ui::colors::push_styled(&mut spans, &blank, base);
            },
            None => {},
        }
        crate::ui::colors::push_styled(&mut spans, &to_chars(line.label.as_str()), base);
    } else if line.marker.as_str().unicode_len() == 0 {
        crate::ui::colors::push_styled(&mut spans, &to_chars(line.label.as_str()), base);
    } else {
        let mut label = to_chars(line.marker.as_str());
        crate::text::append_chars(&mut label, &blank);
        crate::text::append_str(&mut label, line.label.as_str());
        crate::ui::colors::push_styled(&mut spans, &label, base);
    }
    proof {
        assert(cells_of(spans@) =~= row_text(*line, selected));
    }
    let ghost text = cells_of(spans@);
    let mut len: usize = 0;
    let mut i: usize = 0;
    proof {
        assert(spans@.take(0) =~= Seq::<Span>::empty());
    }
    while i < spans.len()
        invariant
            i <= spans.len(),
            len == crate::ui::wrap::capped_len(cells_of(spans@.take(i as int))),
        decreases spans.len() - i,
    {
        let n = spans[i].content.as_str().unicode_len();
        proof {
            crate::ui::wrap::lemma_cells_prefix(spans@, i as int);
        }
        len = len.saturating_add(n);
        i += 1;
    }
    proof {
        assert(spans@.take(i as int) =~= spans@);
    }
    if width > 0 && width - 1 > len {
        let count = width - 1 - len;
        let mut padding: Vec<char> = Vec::new();
        let mut k: usize = 0;
        while k < count
            invariant
                k <= count,
                padding@ == blanks(k as nat),
            decreases count - k,
        {
            padding.push(' ');
            k += 1;
            proof {
                assert(padding@ =~= blanks(k as nat));
            }
        }
        crate::ui::colors::push_styled(&mut spans, &padding, base);
    }
    Line::from_spans(spans)
}

/// The text of a text input as a popup shows it: the value with a bar at
/// the cursor, or at the end where the cursor lies behind it. A cursor
/// within the value lies on a character boundary.
pub fn input_line_text(input: &TextInput) -> (text: String)
    requires
        input.cursor <= input.len() ==> is_char_boundary(input.bytes(), input.cursor as int),
    ensures
        input.cursor <= input.len() ==> encode_utf8(text@) == spliced(
            input.bytes(),
            input.cursor as int,
            encode_scalar('|' as u32),
        ),
        input.cursor > input.len() ==> text@ == input.value@.push('|'),
{
    let mut text = input.value.clone();
    if input.cursor <= text.as_str().len() {
        text.insert(input.cursor, '|');
    } else {
        text.push('|');
    }
    text
}

} // verus!
