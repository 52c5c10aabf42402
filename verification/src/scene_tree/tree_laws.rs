//! In which order the searches over a tree meet its nodes.

use vstd::prelude::*;

use crate::ids::InstanceId;
use crate::scene_tree::tree::{
    clear_path, is_first_named, mirrored_below, mirrored_ids, named_below, named_nodes, node_at,
    valid_path, SceneNode,
};

verus! {

/// Whether the node at the end of one path comes before that at the end of another: it is above it,
/// or where the two ways part it is in an earlier branch.
pub open spec fn comes_before(p: Seq<nat>, q: Seq<nat>) -> bool
    decreases p.len(),
{
    if q.len() == 0 {
        false
    } else if p.len() == 0 {
        true
    } else if p[0] == q[0] {
        comes_before(p.drop_first(), q.drop_first())
    } else {
        p[0] < q[0]
    }
}

/// Any two nodes of a tree come one before the other.
pub proof fn law_nodes_are_ordered(p: Seq<nat>, q: Seq<nat>)
    requires
        p != q,
    ensures
        comes_before(p, q) || comes_before(q, p),
    decreases p.len(),
{
    if p.len() == 0 {
        if q.len() == 0 {
            assert(p =~= q);
        }
    } else if q.len() > 0 && p[0] == q[0] {
        if p.drop_first() == q.drop_first() {
            assert(p =~= seq![p[0]] + p.drop_first());
            assert(q =~= seq![q[0]] + q.drop_first());
        }
        law_nodes_are_ordered(p.drop_first(), q.drop_first());
    }
}

/// Where the walk that skips excluded nodes meets the node at the end of a path.
spec fn place(node: SceneNode, path: Seq<nat>) -> int
    decreases path.len(),
{
    if path.len() == 0 {
        0
    } else {
        1 + mirrored_below(node, path[0]).len() + place(
            node.children@[path[0] as int],
            path.drop_first(),
        )
    }
}

proof fn lemma_branches_follow(node: SceneNode, i: nat, n: nat)
    requires
        i < n <= node.children@.len(),
    ensures
        (mirrored_below(node, i) + mirrored_ids(node.children@[i as int])).is_prefix_of(
            mirrored_below(node, n),
        ),
    decreases n,
{
    let all = mirrored_below(node, n);
    if i < n - 1 {
        lemma_branches_follow(node, i, (n - 1) as nat);
        let part = mirrored_below(node, i) + mirrored_ids(node.children@[i as int]);
        assert(mirrored_below(node, (n - 1) as nat).is_prefix_of(all));
        assert(part =~= all.take(part.len() as int));
    }
}

proof fn lemma_place(node: SceneNode, path: Seq<nat>)
    requires
        valid_path(node, path),
        clear_path(node, path),
    ensures
        0 <= place(node, path) < mirrored_ids(node).len(),
        mirrored_ids(node)[place(node, path)] == node_at(node, path).id,
    decreases path.len(),
{
    if path.len() > 0 {
        let i = path[0];
        let child = node.children@[i as int];
        lemma_place(child, path.drop_first());
        lemma_branches_follow(node, i, node.children@.len());
        let part = mirrored_below(node, i) + mirrored_ids(child);
        let below = mirrored_below(node, node.children@.len());
        let at = mirrored_below(node, i).len() + place(child, path.drop_first());
        assert(below[at] == part[at]);
        assert((seq![node.id] + below)[1 + at] == below[at]);
    }
}

proof fn lemma_place_order(node: SceneNode, p: Seq<nat>, q: Seq<nat>)
    requires
        valid_path(node, p),
        clear_path(node, p),
        valid_path(node, q),
        clear_path(node, q),
        comes_before(p, q),
    ensures
        place(node, p) < place(node, q),
    decreases p.len(),
{
    lemma_place(node.children@[q[0] as int], q.drop_first());
    if p.len() > 0 {
        lemma_place(node.children@[p[0] as int], p.drop_first());
        if p[0] == q[0] {
            lemma_place_order(node.children@[p[0] as int], p.drop_first(), q.drop_first());
        } else {
            lemma_branches_follow(node, p[0], q[0]);
        }
    }
}

proof fn lemma_place_below(node: SceneNode, n: nat, at: int) -> (path: Seq<nat>)
    requires
        n <= node.children@.len(),
        0 <= at < mirrored_below(node, n).len(),
    ensures
        path.len() > 0,
        path[0] < n,
        valid_path(node.children@[path[0] as int], path.drop_first()),
        clear_path(node.children@[path[0] as int], path.drop_first()),
        mirrored_below(node, path[0]).len() + place(
            node.children@[path[0] as int],
            path.drop_first(),
        ) == at,
    decreases node, n,
{
    let rest = mirrored_below(node, (n - 1) as nat);
    if at < rest.len() {
        lemma_place_below(node, (n - 1) as nat, at)
    } else {
        let child = node.children@[n - 1];
        let inner = lemma_place_is_taken(child, at - rest.len());
        let path = seq![(n - 1) as nat] + inner;
        assert(path.drop_first() =~= inner);
        path
    }
}

proof fn lemma_place_is_taken(node: SceneNode, at: int) -> (path: Seq<nat>)
    requires
        0 <= at < mirrored_ids(node).len(),
    ensures
        valid_path(node, path),
        clear_path(node, path),
        place(node, path) == at,
    decreases node, node.children@.len() + 1,
{
    if at == 0 {
        Seq::empty()
    } else {
        lemma_place_below(node, node.children@.len(), at - 1)
    }
}

/// The walk that announces nodes meets a node before those below it, and the nodes of one branch
/// before those of the next.
pub proof fn law_traversal_goes_down_in_order(node: SceneNode, p: Seq<nat>, q: Seq<nat>)
    requires
        valid_path(node, p),
        clear_path(node, p),
        valid_path(node, q),
        clear_path(node, q),
        comes_before(p, q),
    ensures
        exists|i: int, j: int|
            0 <= i < j < mirrored_ids(node).len() && #[trigger] mirrored_ids(node)[i] == node_at(
                node,
                p,
            ).id && #[trigger] mirrored_ids(node)[j] == node_at(node, q).id,
{
    lemma_place(node, p);
    lemma_place(node, q);
    lemma_place_order(node, p, q);
    assert(mirrored_ids(node)[place(node, p)] == node_at(node, p).id && mirrored_ids(
        node,
    )[place(node, q)] == node_at(node, q).id);
}

/// Each node is announced once: where no two nodes of the tree share an id, no id is announced twice.
pub proof fn law_traversal_meets_each_node_once(node: SceneNode)
    requires
        forall|p: Seq<nat>, q: Seq<nat>|
            valid_path(node, p) && valid_path(node, q) && (#[trigger] node_at(node, p)).id == (
            #[trigger] node_at(node, q)).id ==> p == q,
    ensures
        mirrored_ids(node).no_duplicates(),
{
    let ids = mirrored_ids(node);
    assert forall|i: int, j: int| 0 <= i < ids.len() && 0 <= j < ids.len() && i != j implies ids[i]
        != ids[j] by {
        let p = lemma_place_is_taken(node, i);
        let q = lemma_place_is_taken(node, j);
        lemma_place(node, p);
        lemma_place(node, q);
        if ids[i] == ids[j] {
            assert(node_at(node, p).id == node_at(node, q).id);
        }
    }
}

/// Where the search by name meets the node at the end of a path.
spec fn search_place(node: SceneNode, path: Seq<nat>) -> int
    decreases path.len(),
{
    if path.len() == 0 {
        0
    } else {
        1 + named_below(node, path[0]).len() + search_place(
            node.children@[path[0] as int],
            path.drop_first(),
        )
    }
}

proof fn lemma_named_branches_follow(node: SceneNode, i: nat, n: nat)
    requires
        i < n <= node.children@.len(),
    ensures
        (named_below(node, i) + named_nodes(node.children@[i as int])).is_prefix_of(
            named_below(node, n),
        ),
    decreases n,
{
    let all = named_below(node, n);
    if i < n - 1 {
        lemma_named_branches_follow(node, i, (n - 1) as nat);
        let part = named_below(node, i) + named_nodes(node.children@[i as int]);
        assert(named_below(node, (n - 1) as nat).is_prefix_of(all));
        assert(part =~= all.take(part.len() as int));
    }
}

proof fn lemma_search_place(node: SceneNode, path: Seq<nat>)
    requires
        valid_path(node, path),
    ensures
        0 <= search_place(node, path) < named_nodes(node).len(),
        named_nodes(node)[search_place(node, path)] == (
            node_at(node, path).id,
            node_at(node, path).name@,
        ),
    decreases path.len(),
{
    if path.len() > 0 {
        let i = path[0];
        let child = node.children@[i as int];
        lemma_search_place(child, path.drop_first());
        lemma_named_branches_follow(node, i, node.children@.len());
        let part = named_below(node, i) + named_nodes(child);
        let below = named_below(node, node.children@.len());
        let at = named_below(node, i).len() + search_place(child, path.drop_first());
        assert(below[at] == part[at]);
        assert((seq![(node.id, node.name@)] + below)[1 + at] == below[at]);
    }
}

proof fn lemma_search_place_order(node: SceneNode, p: Seq<nat>, q: Seq<nat>)
    requires
        valid_path(node, p),
        valid_path(node, q),
        comes_before(p, q),
    ensures
        search_place(node, p) < search_place(node, q),
    decreases p.len(),
{
    lemma_search_place(node.children@[q[0] as int], q.drop_first());
    if p.len() > 0 {
        lemma_search_place(node.children@[p[0] as int], p.drop_first());
        if p[0] == q[0] {
            lemma_search_place_order(node.children@[p[0] as int], p.drop_first(), q.drop_first());
        } else {
            lemma_named_branches_follow(node, p[0], q[0]);
        }
    }
}

proof fn lemma_search_place_below(node: SceneNode, n: nat, at: int) -> (path: Seq<nat>)
    requires
        n <= node.children@.len(),
        0 <= at < named_below(node, n).len(),
    ensures
        path.len() > 0,
        path[0] < n,
        valid_path(node.children@[path[0] as int], path.drop_first()),
        named_below(node, path[0]).len() + search_place(
            node.children@[path[0] as int],
            path.drop_first(),
        ) == at,
    decreases node, n,
{
    let rest = named_below(node, (n - 1) as nat);
    if at < rest.len() {
        lemma_search_place_below(node, (n - 1) as nat, at)
    } else {
        let child = node.children@[n - 1];
        let inner = lemma_search_place_is_taken(child, at - rest.len());
        let path = seq![(n - 1) as nat] + inner;
        assert(path.drop_first() =~= inner);
        path
    }
}

proof fn lemma_search_place_is_taken(node: SceneNode, at: int) -> (path: Seq<nat>)
    requires
        0 <= at < named_nodes(node).len(),
    ensures
        valid_path(node, path),
        search_place(node, path) == at,
    decreases node, node.children@.len() + 1,
{
    if at == 0 {
        Seq::empty()
    } else {
        lemma_search_place_below(node, node.children@.len(), at - 1)
    }
}

/// Whether the search by name found the node at the end of a path: that node has the name, and none
/// that comes before it has.
pub open spec fn is_first_at(
    node: SceneNode,
    name: Seq<char>,
    id: InstanceId,
    path: Seq<nat>,
) -> bool {
    &&& valid_path(node, path)
    &&& node_at(node, path).id == id
    &&& node_at(node, path).name@ == name
    &&& forall|q: Seq<nat>|
        valid_path(node, q) && comes_before(q, path) ==> (#[trigger] node_at(node, q)).name@ != name
}

/// The search by name finds the first node of the tree that has the name, a node before those below
/// it and one branch before the next, excluded or not; it finds none just when no node has the name.
pub proof fn law_search_finds_the_first(
    node: SceneNode,
    name: Seq<char>,
    found: Option<InstanceId>,
)
    requires
        is_first_named(named_nodes(node), name, found),
    ensures
        match found {
            Some(id) => exists|path: Seq<nat>| #[trigger] is_first_at(node, name, id, path),
            None => forall|q: Seq<nat>|
                valid_path(node, q) ==> (#[trigger] node_at(node, q)).name@ != name,
        },
{
    let nodes = named_nodes(node);
    match found {
        Some(id) => {
            let k = choose|k: int|
                {
                    &&& 0 <= k < nodes.len()
                    &&& #[trigger] nodes[k] == (id, name)
                    &&& forall|j: int| 0 <= j < k ==> (#[trigger] nodes[j]).1 != name
                };
            let path = lemma_search_place_is_taken(node, k);
            lemma_search_place(node, path);
            assert forall|q: Seq<nat>| valid_path(node, q) && comes_before(q, path) implies (
            #[trigger] node_at(node, q)).name@ != name by {
                lemma_search_place(node, q);
                lemma_search_place_order(node, q, path);
                assert(nodes[search_place(node, q)].1 != name);
            }
            assert(is_first_at(node, name, id, path));
        },
        None => {
            assert forall|q: Seq<nat>| valid_path(node, q) implies (#[trigger] node_at(
                node,
                q,
            )).name@ != name by {
                lemma_search_place(node, q);
                assert(nodes[search_place(node, q)].1 != name);
            }
        },
    }
}

} // verus!
