//! The navigation tree of a wiki: pages nest under pages. A page is placed
//! above, below or inside another page, found by id anywhere in the tree,
//! and a page is taken out of the tree with everything under it.
//!
//! A node keeps its `id` (when it has a string one), the rest of its JSON
//! members as text carried through unchanged, and its `children`: none, a
//! list of nodes, or some other JSON value that is not a list.

use vstd::prelude::*;
use crate::error::{AppError, is_bad_request, is_not_found, not_found};
use crate::text::{owned, str_eq};
use crate::wiki::move_insert_position;

verus! {

/// The children of a node, as a specification sees them.
pub ghost enum KidsV {
    Absent,
    Nodes(Seq<NodeV>),
    Other(Seq<char>),
}

/// A node, as a specification sees it.
pub ghost struct NodeV {
    pub id: Option<Seq<char>>,
    pub fields: Seq<char>,
    pub children: KidsV,
}

/// The children of a navigation node.
#[derive(Debug)]
pub enum NavChildren {
    /// The node has no `children` member.
    Absent,
    /// A list of nodes.
    Nodes(Vec<NavNode>),
    /// A `children` member that is not a list, as JSON text.
    Other(String),
}

/// A navigation node.
#[derive(Debug)]
pub struct NavNode {
    /// The node's `id`, when it is a string.
    pub id: Option<String>,
    /// The node's other members, as JSON text.
    pub fields: String,
    pub children: NavChildren,
}

/// The specification view of a node.
pub open spec fn node_view(n: NavNode) -> NodeV
    decreases n,
{
    NodeV {
        id: match n.id {
            Some(s) => Some(s@),
            None => None,
        },
        fields: n.fields@,
        children: match n.children {
            NavChildren::Absent => KidsV::Absent,
            NavChildren::Nodes(v) => KidsV::Nodes(nodes_view(v@)),
            NavChildren::Other(s) => KidsV::Other(s@),
        },
    }
}

/// The specification view of a list of nodes.
pub open spec fn nodes_view(s: Seq<NavNode>) -> Seq<NodeV>
    decreases s,
{
    if s.len() == 0 {
        Seq::empty()
    } else {
        nodes_view(s.subrange(0, s.len() - 1)).push(node_view(s[s.len() - 1]))
    }
}

/// Number of nodes in a node's subtree, itself included.
pub open spec fn node_size(n: NodeV) -> nat
    decreases n,
{
    1 + match n.children {
        KidsV::Nodes(k) => forest_size(k),
        _ => 0,
    }
}

/// Number of nodes in a list of trees.
pub open spec fn forest_size(s: Seq<NodeV>) -> nat
    decreases s,
{
    if s.len() == 0 {
        0
    } else {
        forest_size(s.subrange(0, s.len() - 1)) + node_size(s[s.len() - 1])
    }
}

/// Where a page goes relative to the page it is placed at.
#[derive(Debug, Clone, Copy, PartialEq, Eq, Structural)]
pub enum NavPosition {
    /// Just before it, among its siblings.
    Above,
    /// Just after it, among its siblings.
    Below,
    /// Last among its children.
    Inner,
}

/// Whether a node carries this id.
pub open spec fn has_id(n: NodeV, id: Seq<char>) -> bool {
    n.id == Some(id)
}

/// The index of the first node of a list with this id.
pub open spec fn first_with_id(s: Seq<NodeV>, id: Seq<char>) -> Option<int>
    decreases s.len(),
{
    if s.len() == 0 {
        None
    } else {
        match first_with_id(s.drop_last(), id) {
            Some(i) => Some(i),
            None => if has_id(s.last(), id) {
                Some(s.len() - 1)
            } else {
                None
            },
        }
    }
}

pub proof fn lemma_first_with_id(s: Seq<NodeV>, id: Seq<char>)
    ensures
        match first_with_id(s, id) {
            Some(i) => 0 <= i < s.len() && has_id(s[i], id) && forall|j: int|
                0 <= j < i ==> !has_id(#[trigger] s[j], id),
            None => forall|j: int| 0 <= j < s.len() ==> !has_id(#[trigger] s[j], id),
        },
    decreases s.len(),
{
    if s.len() > 0 {
        lemma_first_with_id(s.drop_last(), id);
        assert forall|j: int| 0 <= j < s.len() - 1 implies s.drop_last()[j] == #[trigger] s[j] by {}
    }
}

/// The node with its children replaced.
pub open spec fn with_children(n: NodeV, k: KidsV) -> NodeV {
    NodeV { id: n.id, fields: n.fields, children: k }
}

/// What placing a node in a tree comes to.
pub ghost enum Placement {
    /// The tree after the placement.
    Placed(Seq<NodeV>),
    /// No node has the id.
    Missing,
    /// The node to place inside has a `children` member that is not a list.
    NotAList,
}

/// Place `node` relative to the node with id `cur`: a node with that id in
/// this list is used first (the first one); otherwise each node's child
/// list is searched in turn, depth first.
pub open spec fn place(nav: Seq<NodeV>, node: NodeV, cur: Seq<char>, pos: NavPosition) -> Placement
    decreases nav, nav.len() + 1,
{
    match first_with_id(nav, cur) {
        Some(i) => match pos {
            NavPosition::Above => Placement::Placed(nav.insert(i, node)),
            NavPosition::Below => Placement::Placed(nav.insert(i + 1, node)),
            NavPosition::Inner => match nav[i].children {
                KidsV::Absent => Placement::Placed(nav.update(i, with_children(nav[i], KidsV::Nodes(seq![node])))),
                KidsV::Nodes(k) => Placement::Placed(nav.update(i, with_children(nav[i], KidsV::Nodes(k.push(node))))),
                KidsV::Other(_) => Placement::NotAList,
            },
        },
        None => place_below(nav, node, cur, pos, 0),
    }
}

/// [`place`] tried in the child lists of `nav[j..]`, in order.
pub open spec fn place_below(nav: Seq<NodeV>, node: NodeV, cur: Seq<char>, pos: NavPosition, j: int) -> Placement
    decreases nav, nav.len() - j,
{
    if j < 0 || j >= nav.len() {
        Placement::Missing
    } else {
        match nav[j].children {
            KidsV::Nodes(k) => match place(k, node, cur, pos) {
                Placement::Placed(nk) => Placement::Placed(nav.update(j, with_children(nav[j], KidsV::Nodes(nk)))),
                Placement::NotAList => Placement::NotAList,
                Placement::Missing => place_below(nav, node, cur, pos, j + 1),
            },
            _ => place_below(nav, node, cur, pos, j + 1),
        }
    }
}

/// Take the node with id `id` out of a tree, with its subtree: the first
/// such node of this list, otherwise from each node's child list in turn.
pub open spec fn take_out(nav: Seq<NodeV>, id: Seq<char>) -> Option<(Seq<NodeV>, NodeV)>
    decreases nav, nav.len() + 1,
{
    match first_with_id(nav, id) {
        Some(i) => Some((nav.remove(i), nav[i])),
        None => take_out_below(nav, id, 0),
    }
}

/// [`take_out`] tried in the child lists of `nav[j..]`, in order.
pub open spec fn take_out_below(nav: Seq<NodeV>, id: Seq<char>, j: int) -> Option<(Seq<NodeV>, NodeV)>
    decreases nav, nav.len() - j,
{
    if j < 0 || j >= nav.len() {
        None
    } else {
        match nav[j].children {
            KidsV::Nodes(k) => match take_out(k, id) {
                Some((nk, n)) => Some((nav.update(j, with_children(nav[j], KidsV::Nodes(nk))), n)),
                None => take_out_below(nav, id, j + 1),
            },
            _ => take_out_below(nav, id, j + 1),
        }
    }
}

/// Whether some node of the tree, reached through child lists, has this id.
pub open spec fn contains_id(nav: Seq<NodeV>, id: Seq<char>) -> bool
    decreases nav, nav.len() + 1,
{
    first_with_id(nav, id) is Some || contains_below(nav, id, 0)
}

/// Whether [`contains_id`] holds of a child list of `nav[j..]`.
pub open spec fn contains_below(nav: Seq<NodeV>, id: Seq<char>, j: int) -> bool
    decreases nav, nav.len() - j,
{
    if j < 0 || j >= nav.len() {
        false
    } else {
        match nav[j].children {
            KidsV::Nodes(k) => contains_id(k, id) || contains_below(nav, id, j + 1),
            _ => contains_below(nav, id, j + 1),
        }
    }
}

// ─── Sizes ────────────────────────────────────────────────────────────────

proof fn lemma_forest_concat(a: Seq<NodeV>, b: Seq<NodeV>)
    ensures
        forest_size(a + b) == forest_size(a) + forest_size(b),
    decreases b.len(),
{
    if b.len() == 0 {
        assert(a + b =~= a);
    } else {
        let ab = a + b;
        assert(ab.subrange(0, ab.len() - 1) =~= a + b.subrange(0, b.len() - 1));
        assert(ab[ab.len() - 1] == b[b.len() - 1]);
        lemma_forest_concat(a, b.subrange(0, b.len() - 1));
    }
}

proof fn lemma_forest_single(x: NodeV)
    ensures
        forest_size(seq![x]) == node_size(x),
{
    let s = seq![x];
    assert(s.subrange(0, 0) =~= Seq::<NodeV>::empty());
    assert(forest_size(Seq::<NodeV>::empty()) == 0);
    assert(s[s.len() - 1] == x);
    assert(forest_size(s) == forest_size(s.subrange(0, s.len() - 1)) + node_size(s[s.len() - 1]));
}

proof fn lemma_forest_split(s: Seq<NodeV>, i: int)
    requires
        0 <= i < s.len(),
    ensures
        forest_size(s) == forest_size(s.take(i)) + node_size(s[i]) + forest_size(s.skip(i + 1)),
{
    assert(s =~= s.take(i) + seq![s[i]] + s.skip(i + 1));
    lemma_forest_concat(s.take(i) + seq![s[i]], s.skip(i + 1));
    lemma_forest_concat(s.take(i), seq![s[i]]);
    lemma_forest_single(s[i]);
}

proof fn lemma_forest_insert(s: Seq<NodeV>, i: int, x: NodeV)
    requires
        0 <= i <= s.len(),
    ensures
        forest_size(s.insert(i, x)) == forest_size(s) + node_size(x),
{
    assert(s.insert(i, x) =~= s.take(i) + seq![x] + s.skip(i));
    assert(s =~= s.take(i) + s.skip(i));
    lemma_forest_concat(s.take(i) + seq![x], s.skip(i));
    lemma_forest_concat(s.take(i), seq![x]);
    lemma_forest_concat(s.take(i), s.skip(i));
    lemma_forest_single(x);
}

proof fn lemma_forest_update(s: Seq<NodeV>, i: int, x: NodeV)
    requires
        0 <= i < s.len(),
    ensures
        forest_size(s.update(i, x)) + node_size(s[i]) == forest_size(s) + node_size(x),
{
    let u = s.update(i, x);
    lemma_forest_split(s, i);
    lemma_forest_split(u, i);
    assert(u.take(i) =~= s.take(i));
    assert(u.skip(i + 1) =~= s.skip(i + 1));
}

proof fn lemma_forest_remove(s: Seq<NodeV>, i: int)
    requires
        0 <= i < s.len(),
    ensures
        forest_size(s.remove(i)) + node_size(s[i]) == forest_size(s),
{
    lemma_forest_split(s, i);
    assert(s.remove(i) =~= s.take(i) + s.skip(i + 1));
    lemma_forest_concat(s.take(i), s.skip(i + 1));
}

// ─── Laws ─────────────────────────────────────────────────────────────────

/// Placing a node fails for want of its anchor exactly when no node of the
/// tree has the anchor's id; a placement that succeeds adds the placed
/// subtree and nothing else, so the tree grows by its size.
pub proof fn place_finds_any_anchor(nav: Seq<NodeV>, node: NodeV, cur: Seq<char>, pos: NavPosition)
    ensures
        (place(nav, node, cur, pos) is Missing) <==> !contains_id(nav, cur),
        place(nav, node, cur, pos) matches Placement::Placed(t) ==> forest_size(t) == forest_size(nav)
            + node_size(node),
    decreases nav, nav.len() + 1,
{
    lemma_first_with_id(nav, cur);
    match first_with_id(nav, cur) {
        Some(i) => {
            match pos {
                NavPosition::Above => lemma_forest_insert(nav, i, node),
                NavPosition::Below => lemma_forest_insert(nav, i + 1, node),
                NavPosition::Inner => {
                    match nav[i].children {
                        KidsV::Absent => {
                            let n2 = with_children(nav[i], KidsV::Nodes(seq![node]));
                            lemma_forest_update(nav, i, n2);
                            lemma_forest_single(node);
                        },
                        KidsV::Nodes(k) => {
                            let n2 = with_children(nav[i], KidsV::Nodes(k.push(node)));
                            lemma_forest_update(nav, i, n2);
                            assert(k.push(node).subrange(0, k.len() as int) =~= k);
                        },
                        KidsV::Other(_) => {},
                    }
                },
            }
        },
        None => place_below_finds_any_anchor(nav, node, cur, pos, 0),
    }
}

/// [`place_finds_any_anchor`] for the child lists of `nav[j..]`.
pub proof fn place_below_finds_any_anchor(nav: Seq<NodeV>, node: NodeV, cur: Seq<char>, pos: NavPosition, j: int)
    ensures
        (place_below(nav, node, cur, pos, j) is Missing) <==> !contains_below(nav, cur, j),
        place_below(nav, node, cur, pos, j) matches Placement::Placed(t) ==> forest_size(t) == forest_size(nav)
            + node_size(node),
    decreases nav, nav.len() - j,
{
    if 0 <= j < nav.len() {
        match nav[j].children {
            KidsV::Nodes(k) => {
                place_finds_any_anchor(k, node, cur, pos);
                match place(k, node, cur, pos) {
                    Placement::Placed(nk) => {
                        lemma_forest_update(nav, j, with_children(nav[j], KidsV::Nodes(nk)));
                    },
                    Placement::NotAList => {},
                    Placement::Missing => place_below_finds_any_anchor(nav, node, cur, pos, j + 1),
                }
            },
            _ => place_below_finds_any_anchor(nav, node, cur, pos, j + 1),
        }
    }
}

/// A node is taken out exactly when some node of the tree has its id; what
/// comes out has that id, and the tree shrinks by the size of its subtree.
pub proof fn take_out_finds_any_node(nav: Seq<NodeV>, id: Seq<char>)
    ensures
        take_out(nav, id) is None <==> !contains_id(nav, id),
        take_out(nav, id) matches Some((t, n)) ==> has_id(n, id) && forest_size(t) + node_size(n)
            == forest_size(nav),
    decreases nav, nav.len() + 1,
{
    lemma_first_with_id(nav, id);
    match first_with_id(nav, id) {
        Some(i) => lemma_forest_remove(nav, i),
        None => take_out_below_finds_any_node(nav, id, 0),
    }
}

/// [`take_out_finds_any_node`] for the child lists of `nav[j..]`.
pub proof fn take_out_below_finds_any_node(nav: Seq<NodeV>, id: Seq<char>, j: int)
    ensures
        take_out_below(nav, id, j) is None <==> !contains_below(nav, id, j),
        take_out_below(nav, id, j) matches Some((t, n)) ==> has_id(n, id) && forest_size(t)
            + node_size(n) == forest_size(nav),
    decreases nav, nav.len() - j,
{
    if 0 <= j < nav.len() {
        match nav[j].children {
            KidsV::Nodes(k) => {
                take_out_finds_any_node(k, id);
                match take_out(k, id) {
                    Some((nk, n)) => {
                        lemma_forest_update(nav, j, with_children(nav[j], KidsV::Nodes(nk)));
                    },
                    None => take_out_below_finds_any_node(nav, id, j + 1),
                }
            },
            _ => take_out_below_finds_any_node(nav, id, j + 1),
        }
    }
}

/// Moving a page takes its subtree out and places it back whole: a move
/// that succeeds leaves the tree with as many nodes as before.
pub proof fn a_move_keeps_every_node(nav: Seq<NodeV>, moved_id: Seq<char>, target_id: Seq<char>, pos: NavPosition)
    ensures
        take_out(nav, moved_id) matches Some((rest, n)) ==> (place(rest, n, target_id, pos) matches Placement::Placed(
            t,
        ) ==> forest_size(t) == forest_size(nav)),
{
    take_out_finds_any_node(nav, moved_id);
    if let Some((rest, n)) = take_out(nav, moved_id) {
        place_finds_any_anchor(rest, n, target_id, pos);
    }
}

// ─── Executable operations ───────────────────────────────────────────────

proof fn lemma_nodes_view(s: Seq<NavNode>)
    ensures
        nodes_view(s).len() == s.len(),
        forall|k: int| 0 <= k < s.len() ==> #[trigger] nodes_view(s)[k] == node_view(s[k]),
    decreases s.len(),
{
    if s.len() > 0 {
        let t = s.subrange(0, s.len() - 1);
        lemma_nodes_view(t);
        assert forall|k: int| 0 <= k < s.len() implies #[trigger] nodes_view(s)[k] == node_view(s[k]) by {
            if k < s.len() - 1 {
                assert(t[k] == s[k]);
            }
        }
    }
}

/// Whether a node carries this id.
fn node_has_id(n: &NavNode, id: &str) -> (b: bool)
    ensures
        b == has_id(node_view(*n), id@),
{
    match &n.id {
        Some(x) => str_eq(x.as_str(), id),
        None => false,
    }
}

/// The index of the first node of a list with this id.
fn find_first(nav: &Vec<NavNode>, id: &str) -> (r: Option<usize>)
    ensures
        match r {
            Some(i) => i < nav@.len() && first_with_id(nodes_view(nav@), id@) == Some(i as int),
            None => first_with_id(nodes_view(nav@), id@) is None,
        },
{
    proof {
        lemma_nodes_view(nav@);
        lemma_first_with_id(nodes_view(nav@), id@);
    }
    let mut i: usize = 0;
    while i < nav.len()
        invariant
            i <= nav@.len(),
            nodes_view(nav@).len() == nav@.len(),
            forall|k: int| 0 <= k < nav@.len() ==> #[trigger] nodes_view(nav@)[k] == node_view(nav@[k]),
            forall|k: int| 0 <= k < i ==> !has_id(#[trigger] nodes_view(nav@)[k], id@),
            match first_with_id(nodes_view(nav@), id@) {
                Some(f) => 0 <= f < nav@.len() && has_id(nodes_view(nav@)[f], id@) && forall|k: int|
                    0 <= k < f ==> !has_id(#[trigger] nodes_view(nav@)[k], id@),
                None => forall|k: int| 0 <= k < nav@.len() ==> !has_id(#[trigger] nodes_view(nav@)[k], id@),
            },
        decreases nav@.len() - i,
    {
        if node_has_id(&nav[i], id) {
            proof {
                assert(has_id(nodes_view(nav@)[i as int], id@));
                let f = first_with_id(nodes_view(nav@), id@)->Some_0;
                if f > i {
                    assert(!has_id(nodes_view(nav@)[i as int], id@));
                }
            }
            return Some(i);
        }
        i = i + 1;
    }
    None
}

/// How a placement ended.
#[derive(Debug, Clone, Copy, PartialEq, Eq, Structural)]
pub enum NavPlaceResult {
    /// The node was placed.
    Placed,
    /// No node has the anchor's id; the tree is unchanged.
    Missing,
    /// The anchor's `children` member is not a list, so nothing can be
    /// placed inside it; the tree is unchanged.
    NotAList,
}

/// The result an outcome of [`place`] is reported as.
pub open spec fn place_result(p: Placement) -> NavPlaceResult {
    match p {
        Placement::Placed(_) => NavPlaceResult::Placed,
        Placement::Missing => NavPlaceResult::Missing,
        Placement::NotAList => NavPlaceResult::NotAList,
    }
}

/// Place `node`, handing it back when it was not placed.
fn place_exec(nav: &mut Vec<NavNode>, node: NavNode, cur: &str, pos: NavPosition) -> (r: (NavPlaceResult, Option<NavNode>))
    ensures
        r.0 == place_result(place(nodes_view(old(nav)@), node_view(node), cur@, pos)),
        place(nodes_view(old(nav)@), node_view(node), cur@, pos) matches Placement::Placed(t) ==> r.1 is None
            && nodes_view(final(nav)@) == t,
        !(place(nodes_view(old(nav)@), node_view(node), cur@, pos) is Placed) ==> r.1 == Some(node)
            && nodes_view(final(nav)@) == nodes_view(old(nav)@),
    decreases forest_size(nodes_view(old(nav)@)),
{
    let ghost nv = node_view(node);
    let ghost orig = node;
    let ghost ov = nodes_view(nav@);
    proof {
        lemma_nodes_view(nav@);
    }
    match find_first(nav, cur) {
        Some(i) => {
            match pos {
                NavPosition::Above => {
                    nav.insert(i, node);
                    proof {
                        lemma_nodes_view(nav@);
                        assert(nodes_view(nav@) =~= ov.insert(i as int, nv));
                    }
                    (NavPlaceResult::Placed, None)
                },
                NavPosition::Below => {
                    let n = nav.len();
                    assert(i < n);
                    nav.insert(i + 1, node);
                    proof {
                        lemma_nodes_view(nav@);
                        assert(nodes_view(nav@) =~= ov.insert(i + 1, nv));
                    }
                    (NavPlaceResult::Placed, None)
                },
                NavPosition::Inner => {
                    let NavNode { id, fields, children } = nav.remove(i);
                    match children {
                        NavChildren::Absent => {
                            let mut kids: Vec<NavNode> = Vec::new();
                            kids.push(node);
                            proof {
                                lemma_nodes_view(kids@);
                                assert(nodes_view(kids@) =~= seq![nv]);
                            }
                            nav.insert(i, NavNode { id, fields, children: NavChildren::Nodes(kids) });
                            proof {
                                lemma_nodes_view(nav@);
                                assert(nodes_view(nav@) =~= ov.update(
                                    i as int,
                                    with_children(ov[i as int], KidsV::Nodes(seq![nv])),
                                ));
                            }
                            (NavPlaceResult::Placed, None)
                        },
                        NavChildren::Nodes(mut kids) => {
                            let ghost kv = nodes_view(kids@);
                            let ghost old_kids = kids@;
                            kids.push(node);
                            proof {
                                lemma_nodes_view(kids@);
                                lemma_nodes_view(old_kids);
                                assert(kids@ == old_kids.push(node));
                                assert(nodes_view(kids@) =~= kv.push(nv));
                            }
                            nav.insert(i, NavNode { id, fields, children: NavChildren::Nodes(kids) });
                            proof {
                                lemma_nodes_view(nav@);
                                assert(nodes_view(nav@) =~= ov.update(
                                    i as int,
                                    with_children(ov[i as int], KidsV::Nodes(kv.push(nv))),
                                ));
                            }
                            (NavPlaceResult::Placed, None)
                        },
                        NavChildren::Other(o) => {
                            nav.insert(i, NavNode { id, fields, children: NavChildren::Other(o) });
                            proof {
                                lemma_nodes_view(nav@);
                                assert(nodes_view(nav@) =~= ov);
                            }
                            (NavPlaceResult::NotAList, Some(node))
                        },
                    }
                },
            }
        },
        None => {
            let mut held = node;
            let mut j: usize = 0;
            while j < nav.len()
                invariant
                    j <= nav@.len(),
                    nodes_view(nav@) == ov,
                    ov == nodes_view(old(nav)@),
                    ov.len() == nav@.len(),
                    node_view(held) == nv,
                    held == orig,
                    orig == node,
                    first_with_id(ov, cur@) is None,
                    place(ov, nv, cur@, pos) == place_below(ov, nv, cur@, pos, j as int),
                decreases nav@.len() - j,
            {
                proof {
                    lemma_nodes_view(nav@);
                    lemma_forest_split(ov, j as int);
                }
                let NavNode { id, fields, children } = nav.remove(j);
                match children {
                    NavChildren::Nodes(mut kids) => {
                        let ghost kv = nodes_view(kids@);
                        proof {
                            assert(ov[j as int].children == KidsV::Nodes(kv));
                        }
                        let (res, back) = place_exec(&mut kids, held, cur, pos);
                        let ghost nk = nodes_view(kids@);
                        nav.insert(j, NavNode { id, fields, children: NavChildren::Nodes(kids) });
                        proof {
                            lemma_nodes_view(nav@);
                            assert(nodes_view(nav@) =~= ov.update(j as int, with_children(ov[j as int], KidsV::Nodes(nk))));
                        }
                        match back {
                            None => {
                                proof {
                                    assert(place(kv, nv, cur@, pos) == Placement::Placed(nk));
                                    assert(place_below(ov, nv, cur@, pos, j as int) == Placement::Placed(
                                        ov.update(j as int, with_children(ov[j as int], KidsV::Nodes(nk))),
                                    ));
                                }
                                return (res, None);
                            },
                            Some(n) => {
                                held = n;
                                proof {
                                    assert(ov.update(j as int, with_children(ov[j as int], KidsV::Nodes(kv))) =~= ov);
                                }
                                if res == NavPlaceResult::NotAList {
                                    return (res, Some(held));
                                }
                            },
                        }
                    },
                    NavChildren::Absent => {
                        nav.insert(j, NavNode { id, fields, children: NavChildren::Absent });
                        proof {
                            lemma_nodes_view(nav@);
                            assert(nodes_view(nav@) =~= ov);
                        }
                    },
                    NavChildren::Other(o) => {
                        nav.insert(j, NavNode { id, fields, children: NavChildren::Other(o) });
                        proof {
                            lemma_nodes_view(nav@);
                            assert(nodes_view(nav@) =~= ov);
                        }
                    },
                }
                j = j + 1;
            }
            (NavPlaceResult::Missing, Some(held))
        },
    }
}

/// Insert `node` into the navigation tree relative to the node with id
/// `current_id` (see [`place`]).
pub fn insert_nav_node(navigation: &mut Vec<NavNode>, node: NavNode, current_id: &str, position: NavPosition) -> (r: NavPlaceResult)
    ensures
        r == place_result(place(nodes_view(old(navigation)@), node_view(node), current_id@, position)),
        place(nodes_view(old(navigation)@), node_view(node), current_id@, position) matches Placement::Placed(t)
            ==> nodes_view(final(navigation)@) == t,
        r != NavPlaceResult::Placed ==> nodes_view(final(navigation)@) == nodes_view(old(navigation)@),
{
    let (r, _) = place_exec(navigation, node, current_id, position);
    r
}

/// Take the node with id `page_id` out of the navigation tree with its
/// subtree (see [`take_out`]), returning it.
pub fn remove_nav_node(navigation: &mut Vec<NavNode>, page_id: &str) -> (r: Option<NavNode>)
    ensures
        match take_out(nodes_view(old(navigation)@), page_id@) {
            Some((t, n)) => r is Some && node_view(r->Some_0) == n && nodes_view(final(navigation)@) == t,
            None => r is None && nodes_view(final(navigation)@) == nodes_view(old(navigation)@),
        },
    decreases forest_size(nodes_view(old(navigation)@)),
{
    let ghost ov = nodes_view(navigation@);
    proof {
        lemma_nodes_view(navigation@);
    }
    match find_first(navigation, page_id) {
        Some(i) => {
            let n = navigation.remove(i);
            proof {
                lemma_nodes_view(navigation@);
                assert(nodes_view(navigation@) =~= ov.remove(i as int));
            }
            Some(n)
        },
        None => {
            let mut j: usize = 0;
            while j < navigation.len()
                invariant
                    j <= navigation@.len(),
                    nodes_view(navigation@) == ov,
                    ov == nodes_view(old(navigation)@),
                    ov.len() == navigation@.len(),
                    first_with_id(ov, page_id@) is None,
                    take_out(ov, page_id@) == take_out_below(ov, page_id@, j as int),
                decreases navigation@.len() - j,
            {
                proof {
                    lemma_nodes_view(navigation@);
                    lemma_forest_split(ov, j as int);
                }
                let NavNode { id, fields, children } = navigation.remove(j);
                match children {
                    NavChildren::Nodes(mut kids) => {
                        let ghost kv = nodes_view(kids@);
                        proof {
                            assert(ov[j as int].children == KidsV::Nodes(kv));
                        }
                        let found = remove_nav_node(&mut kids, page_id);
                        let ghost nk = nodes_view(kids@);
                        navigation.insert(j, NavNode { id, fields, children: NavChildren::Nodes(kids) });
                        proof {
                            lemma_nodes_view(navigation@);
                            assert(nodes_view(navigation@) =~= ov.update(
                                j as int,
                                with_children(ov[j as int], KidsV::Nodes(nk)),
                            ));
                        }
                        match found {
                            Some(n) => {
                                proof {
                                    let (tk, tn) = take_out(kv, page_id@)->Some_0;
                                    assert(take_out_below(ov, page_id@, j as int) == Some((
                                        ov.update(j as int, with_children(ov[j as int], KidsV::Nodes(tk))),
                                        tn,
                                    )));
                                }
                                return Some(n);
                            },
                            None => {
                                proof {
                                    assert(ov.update(j as int, with_children(ov[j as int], KidsV::Nodes(kv))) =~= ov);
                                }
                            },
                        }
                    },
                    NavChildren::Absent => {
                        navigation.insert(j, NavNode { id, fields, children: NavChildren::Absent });
                        proof {
                            lemma_nodes_view(navigation@);
                            assert(nodes_view(navigation@) =~= ov);
                        }
                    },
                    NavChildren::Other(o) => {
                        navigation.insert(j, NavNode { id, fields, children: NavChildren::Other(o) });
                        proof {
                            lemma_nodes_view(navigation@);
                            assert(nodes_view(navigation@) =~= ov);
                        }
                    },
                }
                j = j + 1;
            }
            None
        },
    }
}

// ─── Pages in the navigation ─────────────────────────────────────────────

/// The position an insert position names: `above`, `inner`, and `below`
/// for anything else.
pub open spec fn nav_position_spec(p: Seq<char>) -> NavPosition {
    if p == "above"@ {
        NavPosition::Above
    } else if p == "inner"@ {
        NavPosition::Inner
    } else {
        NavPosition::Below
    }
}

/// Read an insert position.
pub fn nav_position(position: &str) -> (p: NavPosition)
    ensures
        p == nav_position_spec(position@),
{
    if str_eq(position, "above") {
        NavPosition::Above
    } else if str_eq(position, "inner") {
        NavPosition::Inner
    } else {
        NavPosition::Below
    }
}

/// The members of a new page's node besides its id.
pub open spec fn page_node_fields() -> Seq<char> {
    "{\"type\":\"page\"}"@
}

/// The node of a new page: its id, of type `page`, with no children.
pub open spec fn page_node(page_id: Seq<char>) -> NodeV {
    NodeV { id: Some(page_id), fields: page_node_fields(), children: KidsV::Absent }
}

/// A new page's navigation node.
pub fn new_nav_page(page_id: &str) -> (n: NavNode)
    ensures
        node_view(n) == page_node(page_id@),
{
    NavNode { id: Some(owned(page_id)), fields: owned("{\"type\":\"page\"}"), children: NavChildren::Absent }
}

/// How an edit of the navigation ended when it did not fail.
#[derive(Debug, Clone, Copy, PartialEq, Eq, Structural)]
pub enum NavEdit {
    /// The navigation was edited.
    Done,
    /// The page was to go inside a page whose `children` member is not a
    /// list; the navigation is as it was.
    AnchorNotAList,
}

/// An anchor given as an empty string counts as none.
pub open spec fn given(o: Option<&str>) -> Option<Seq<char>> {
    match o {
        Some(s) => if s@.len() == 0 {
            None
        } else {
            Some(s@)
        },
        None => None,
    }
}

/// Add a new page to the navigation: at the end of the top level without an
/// anchor, otherwise relative to the anchor page (`below` when no position
/// is given). `Current page does not exist` when no page has the anchor's id.
pub fn add_nav_page(
    navigation: &mut Vec<NavNode>,
    page_id: &str,
    current_id: Option<&str>,
    insert_position: Option<&str>,
) -> (r: Result<NavEdit, AppError>)
    ensures
        ({
            let old_v = nodes_view(old(navigation)@);
            let new_v = nodes_view(final(navigation)@);
            let node = page_node(page_id@);
            let pos = match given(insert_position) {
                Some(p) => nav_position_spec(p),
                None => NavPosition::Below,
            };
            match given(current_id) {
                None => r == Ok::<NavEdit, AppError>(NavEdit::Done) && new_v == old_v.push(node),
                Some(c) => match place(old_v, node, c, pos) {
                    Placement::Placed(t) => r == Ok::<NavEdit, AppError>(NavEdit::Done) && new_v == t,
                    Placement::Missing => (r matches Err(e) && is_not_found(e, "Current page does not exist"@))
                        && new_v == old_v,
                    Placement::NotAList => r == Ok::<NavEdit, AppError>(NavEdit::AnchorNotAList) && new_v == old_v,
                },
            }
        }),
{
    let node = new_nav_page(page_id);
    let current = match current_id {
        Some(c) => if c.is_empty() {
            None
        } else {
            Some(c)
        },
        None => None,
    };
    match current {
        None => {
            let ghost ov = navigation@;
            navigation.push(node);
            proof {
                lemma_nodes_view(navigation@);
                lemma_nodes_view(ov);
                assert(nodes_view(navigation@) =~= nodes_view(ov).push(page_node(page_id@)));
            }
            Ok(NavEdit::Done)
        },
        Some(c) => {
            let pos = match insert_position {
                Some(p) => if p.is_empty() {
                    NavPosition::Below
                } else {
                    nav_position(p)
                },
                None => NavPosition::Below,
            };
            match insert_nav_node(navigation, node, c, pos) {
                NavPlaceResult::Placed => Ok(NavEdit::Done),
                NavPlaceResult::Missing => Err(not_found("Current page does not exist")),
                NavPlaceResult::NotAList => Ok(NavEdit::AnchorNotAList),
            }
        },
    }
}

/// Move a page with its subtree to a position relative to another page
/// (`move_above`, `move_below`, `move_into`). `Page not found` when the
/// moved page or, once it is taken out, the target is not in the tree.
pub fn move_nav_page(navigation: &mut Vec<NavNode>, target_id: &str, moved_id: &str, move_position: &str) -> (r:
    Result<NavEdit, AppError>)
    ensures
        ({
            let old_v = nodes_view(old(navigation)@);
            let new_v = nodes_view(final(navigation)@);
            let pos = if move_position@ == "move_above"@ {
                NavPosition::Above
            } else if move_position@ == "move_into"@ {
                NavPosition::Inner
            } else {
                NavPosition::Below
            };
            if !(move_position@ == "move_above"@ || move_position@ == "move_into"@ || move_position@
                == "move_below"@) {
                (r matches Err(e) && is_bad_request(e, "Invalid move_position value"@)) && new_v == old_v
            } else {
                match take_out(old_v, moved_id@) {
                    None => (r matches Err(e) && is_not_found(e, "Page not found"@)) && new_v == old_v,
                    Some((rest, moved)) => match place(rest, moved, target_id@, pos) {
                        Placement::Placed(t) => r == Ok::<NavEdit, AppError>(NavEdit::Done) && new_v == t,
                        Placement::Missing => r matches Err(e) && is_not_found(e, "Page not found"@),
                        Placement::NotAList => r == Ok::<NavEdit, AppError>(NavEdit::AnchorNotAList),
                    },
                }
            }
        }),
{
    let position = match move_insert_position(move_position) {
        Ok(p) => p,
        Err(e) => return Err(e),
    };
    proof {
        reveal_strlit("above");
        reveal_strlit("inner");
        reveal_strlit("below");
        assert("below"@[0] != "above"@[0]);
        assert("below"@[0] != "inner"@[0]);
        assert("above"@[0] != "inner"@[0]);
    }
    let pos = nav_position(position);
    match remove_nav_node(navigation, moved_id) {
        None => Err(not_found("Page not found")),
        Some(moved) => match insert_nav_node(navigation, moved, target_id, pos) {
            NavPlaceResult::Placed => Ok(NavEdit::Done),
            NavPlaceResult::Missing => Err(not_found("Page not found")),
            NavPlaceResult::NotAList => Ok(NavEdit::AnchorNotAList),
        },
    }
}

} // verus!
