//! Searches over a snapshot of the scene tree.

use vstd::prelude::*;

use crate::ids::{GodotNodeHandle, InstanceId};
use crate::scene_tree::message::{bare_added, SceneTreeMessage, SceneTreeMessageType};
use crate::text::same_text;

verus! {

/// A node of the scene tree as it was read, with the nodes below it.
pub struct SceneNode {
    pub id: InstanceId,
    pub name: String,
    /// Whether the node carries the mark that keeps it and everything below it out of the mirror.
    pub excluded: bool,
    pub children: Vec<SceneNode>,
}

/// The nodes of a tree that are mirrored, parents before children and siblings in order: all of
/// them but the excluded ones and those below an excluded one.
pub open spec fn mirrored_ids(node: SceneNode) -> Seq<InstanceId>
    decreases node, node.children@.len() + 1,
{
    if node.excluded {
        Seq::empty()
    } else {
        seq![node.id] + mirrored_below(node, node.children@.len())
    }
}

/// The mirrored nodes in the first `n` branches below a node.
pub open spec fn mirrored_below(node: SceneNode, n: nat) -> Seq<InstanceId>
    decreases node, n,
{
    if n == 0 || n > node.children@.len() {
        Seq::empty()
    } else {
        mirrored_below(node, (n - 1) as nat) + mirrored_ids(node.children@[n - 1])
    }
}

/// Whether `messages` say, one by one, that the nodes `ids` are in the tree.
pub open spec fn announce(messages: Seq<SceneTreeMessage>, ids: Seq<InstanceId>) -> bool {
    &&& messages.len() == ids.len()
    &&& forall|i: int|
        0 <= i < messages.len() ==> (#[trigger] messages[i])@ == bare_added(ids[i])
}

fn traverse_recursive(node: &SceneNode, messages: &mut Vec<SceneTreeMessage>)
    ensures
        final(messages)@.len() == old(messages)@.len() + mirrored_ids(*node).len(),
        forall|i: int|
            0 <= i < old(messages)@.len() ==> (#[trigger] final(messages)@[i]) == old(messages)@[i],
        announce(
            final(messages)@.subrange(
                old(messages)@.len() as int,
                final(messages)@.len() as int,
            ),
            mirrored_ids(*node),
        ),
    decreases *node,
{
    let ghost before = messages@;
    if node.excluded {
        assert(announce(
            messages@.subrange(before.len() as int, messages@.len() as int),
            mirrored_ids(*node),
        ));
        return ;
    }
    messages.push(
        SceneTreeMessage {
            node_id: GodotNodeHandle::from_instance_id(node.id),
            message_type: SceneTreeMessageType::NodeAdded,
            node_type: None,
            node_name: None,
            parent_id: None,
            collision_mask: None,
            groups: None,
        },
    );
    for i in 0..node.children.len()
        invariant
            !node.excluded,
            messages@.len() == before.len() + 1 + mirrored_below(*node, i as nat).len(),
            forall|k: int| 0 <= k < before.len() ==> (#[trigger] messages@[k]) == before[k],
            announce(
                messages@.subrange(before.len() as int, messages@.len() as int),
                seq![node.id] + mirrored_below(*node, i as nat),
            ),
    {
        let ghost mid = messages@;
        let ghost ids = seq![node.id] + mirrored_below(*node, i as nat);
        traverse_recursive(&node.children[i], messages);
        proof {
            let child = node.children@[i as int];
            let now = messages@.subrange(before.len() as int, messages@.len() as int);
            let added = messages@.subrange(mid.len() as int, messages@.len() as int);
            let next = seq![node.id] + mirrored_below(*node, (i + 1) as nat);
            assert(next =~= ids + mirrored_ids(child));
            assert forall|k: int| 0 <= k < now.len() implies (#[trigger] now[k])@ == bare_added(
                next[k],
            ) by {
                if k < ids.len() {
                    assert(now[k] == mid[before.len() + k]);
                    assert(mid.subrange(before.len() as int, mid.len() as int)[k] == now[k]);
                } else {
                    assert(added[k - ids.len()] == now[k]);
                }
            }
        }
    }
    assert(mirrored_ids(*node) == seq![node.id] + mirrored_below(
        *node,
        node.children@.len(),
    ));
}

/// One message per mirrored node of the tree, parents before children. A node that is excluded is
/// skipped together with everything below it.
pub fn traverse_fallback(node: &SceneNode) -> (messages: Vec<SceneTreeMessage>)
    ensures
        messages@.len() == mirrored_ids(*node).len(),
        forall|i: int|
            0 <= i < messages@.len() ==> (#[trigger] messages@[i])@ == bare_added(
                mirrored_ids(*node)[i],
            ),
{
    let mut messages: Vec<SceneTreeMessage> = Vec::new();
    traverse_recursive(node, &mut messages);
    assert(messages@.subrange(0, messages@.len() as int) =~= messages@);
    messages
}

/// A way down a tree: which child to take at each level.
pub open spec fn valid_path(node: SceneNode, path: Seq<nat>) -> bool
    decreases path.len(),
{
    path.len() == 0 || (path[0] < node.children@.len() && valid_path(
        node.children@[path[0] as int],
        path.drop_first(),
    ))
}

/// The node at the end of a path.
pub open spec fn node_at(node: SceneNode, path: Seq<nat>) -> SceneNode
    decreases path.len(),
{
    if path.len() == 0 {
        node
    } else {
        node_at(node.children@[path[0] as int], path.drop_first())
    }
}

/// Whether neither the node at the end of a path nor any node on the way there is excluded.
pub open spec fn clear_path(node: SceneNode, path: Seq<nat>) -> bool
    decreases path.len(),
{
    !node.excluded && (path.len() == 0 || clear_path(
        node.children@[path[0] as int],
        path.drop_first(),
    ))
}

proof fn lemma_branch_is_below(node: SceneNode, i: nat, n: nat, id: InstanceId)
    requires
        i < n <= node.children@.len(),
        mirrored_ids(node.children@[i as int]).contains(id),
    ensures
        mirrored_below(node, n).contains(id),
    decreases n,
{
    let rest = mirrored_below(node, (n - 1) as nat);
    let last = mirrored_ids(node.children@[n - 1]);
    if i == n - 1 {
        let k = choose|k: int| 0 <= k < last.len() && last[k] == id;
        assert((rest + last)[rest.len() + k] == id);
    } else {
        lemma_branch_is_below(node, i, (n - 1) as nat, id);
        let k = choose|k: int| 0 <= k < rest.len() && rest[k] == id;
        assert((rest + last)[k] == id);
    }
}

proof fn lemma_below_is_in_branch(node: SceneNode, n: nat, id: InstanceId) -> (i: nat)
    requires
        n <= node.children@.len(),
        mirrored_below(node, n).contains(id),
    ensures
        i < n,
        mirrored_ids(node.children@[i as int]).contains(id),
    decreases n,
{
    let all = mirrored_below(node, n);
    let rest = mirrored_below(node, (n - 1) as nat);
    let last = mirrored_ids(node.children@[n - 1]);
    let k = choose|k: int| 0 <= k < all.len() && all[k] == id;
    if k < rest.len() {
        assert(rest[k] == id);
        lemma_below_is_in_branch(node, (n - 1) as nat, id)
    } else {
        assert(last[k - rest.len()] == id);
        (n - 1) as nat
    }
}

/// Every node that is reached without passing an excluded node is announced.
pub proof fn law_traversal_is_complete(node: SceneNode, path: Seq<nat>)
    requires
        valid_path(node, path),
        clear_path(node, path),
    ensures
        mirrored_ids(node).contains(node_at(node, path).id),
    decreases path.len(),
{
    let below = mirrored_below(node, node.children@.len());
    if path.len() == 0 {
        assert(mirrored_ids(node)[0] == node.id);
    } else {
        let id = node_at(node, path).id;
        law_traversal_is_complete(node.children@[path[0] as int], path.drop_first());
        lemma_branch_is_below(node, path[0], node.children@.len(), id);
        let k = choose|k: int| 0 <= k < below.len() && below[k] == id;
        assert((seq![node.id] + below)[k + 1] == id);
    }
}

/// Whatever is announced is the id of a node that is reached without passing an excluded node.
pub proof fn law_traversal_skips_excluded(node: SceneNode, id: InstanceId) -> (path: Seq<nat>)
    requires
        mirrored_ids(node).contains(id),
    ensures
        valid_path(node, path),
        clear_path(node, path),
        node_at(node, path).id == id,
    decreases node,
{
    let below = mirrored_below(node, node.children@.len());
    let all = seq![node.id] + below;
    let k = choose|k: int| 0 <= k < all.len() && all[k] == id;
    if k == 0 {
        Seq::empty()
    } else {
        assert(below[k - 1] == id);
        let i = lemma_below_is_in_branch(node, node.children@.len(), id);
        let rest = law_traversal_skips_excluded(node.children@[i as int], id);
        let path = seq![i] + rest;
        assert(path.drop_first() =~= rest);
        path
    }
}

/// All nodes of a tree with their names, parents before children and siblings in order.
pub open spec fn named_nodes(node: SceneNode) -> Seq<(InstanceId, Seq<char>)>
    decreases node, node.children@.len() + 1,
{
    seq![(node.id, node.name@)] + named_below(node, node.children@.len())
}

/// The nodes in the first `n` branches below a node, with their names.
pub open spec fn named_below(node: SceneNode, n: nat) -> Seq<(InstanceId, Seq<char>)>
    decreases node, n,
{
    if n == 0 || n > node.children@.len() {
        Seq::empty()
    } else {
        named_below(node, (n - 1) as nat) + named_nodes(node.children@[n - 1])
    }
}

/// Whether `found` is the first node of `nodes` with this name, or `None` where there is none.
pub open spec fn is_first_named(
    nodes: Seq<(InstanceId, Seq<char>)>,
    name: Seq<char>,
    found: Option<InstanceId>,
) -> bool {
    match found {
        Some(id) => exists|k: int|
            {
                &&& 0 <= k < nodes.len()
                &&& #[trigger] nodes[k] == (id, name)
                &&& forall|j: int| 0 <= j < k ==> (#[trigger] nodes[j]).1 != name
            },
        None => forall|j: int| 0 <= j < nodes.len() ==> (#[trigger] nodes[j]).1 != name,
    }
}

proof fn lemma_first_named_append(
    a: Seq<(InstanceId, Seq<char>)>,
    b: Seq<(InstanceId, Seq<char>)>,
    name: Seq<char>,
    in_a: Option<InstanceId>,
    in_b: Option<InstanceId>,
)
    requires
        is_first_named(a, name, in_a),
        in_a is None ==> is_first_named(b, name, in_b),
    ensures
        is_first_named(
            a + b,
            name,
            if in_a is Some {
                in_a
            } else {
                in_b
            },
        ),
{
    let all = a + b;
    if in_a is Some {
        let k = choose|k: int|
            {
                &&& 0 <= k < a.len()
                &&& #[trigger] a[k] == (in_a->0, name)
                &&& forall|j: int| 0 <= j < k ==> (#[trigger] a[j]).1 != name
            };
        assert(all[k] == (in_a->0, name));
        assert forall|j: int| 0 <= j < k implies (#[trigger] all[j]).1 != name by {
            assert(all[j] == a[j]);
        }
    } else if in_b is Some {
        let k = choose|k: int|
            {
                &&& 0 <= k < b.len()
                &&& #[trigger] b[k] == (in_b->0, name)
                &&& forall|j: int| 0 <= j < k ==> (#[trigger] b[j]).1 != name
            };
        assert(all[a.len() + k] == (in_b->0, name));
        assert forall|j: int| 0 <= j < a.len() + k implies (#[trigger] all[j]).1 != name by {
            if j < a.len() {
                assert(all[j] == a[j]);
            } else {
                assert(all[j] == b[j - a.len()]);
            }
        }
    } else {
        assert forall|j: int| 0 <= j < all.len() implies (#[trigger] all[j]).1 != name by {
            if j < a.len() {
                assert(all[j] == a[j]);
            } else {
                assert(all[j] == b[j - a.len()]);
            }
        }
    }
}

/// The first node with this name in the tree, parents before children. Exclusion from the mirror
/// plays no part.
pub fn find_node_by_name(parent: &SceneNode, name: &str) -> (r: Option<InstanceId>)
    ensures
        is_first_named(named_nodes(*parent), name@, r),
    decreases *parent,
{
    let ghost own = seq![(parent.id, parent.name@)];
    if same_text(parent.name.as_str(), name) {
        assert(named_nodes(*parent)[0] == (parent.id, name@));
        return Some(parent.id);
    }
    assert(own + named_below(*parent, 0) =~= own);
    for i in 0..parent.children.len()
        invariant
            own == seq![(parent.id, parent.name@)],
            is_first_named(own + named_below(*parent, i as nat), name@, None),
    {
        let found = find_node_by_name(&parent.children[i], name);
        proof {
            let child = parent.children@[i as int];
            let done = own + named_below(*parent, i as nat);
            let next = own + named_below(*parent, (i + 1) as nat);
            assert(next =~= done + named_nodes(child));
            lemma_first_named_append(done, named_nodes(child), name@, None, found);
            if found is Some {
                lemma_named_prefix(*parent, (i + 1) as nat, name@, found);
            }
        }
        if found.is_some() {
            return found;
        }
    }
    None
}

proof fn lemma_named_prefix(node: SceneNode, n: nat, name: Seq<char>, found: Option<InstanceId>)
    requires
        n <= node.children@.len(),
        found is Some,
        is_first_named(seq![(node.id, node.name@)] + named_below(node, n), name, found),
    ensures
        is_first_named(named_nodes(node), name, found),
    decreases node.children@.len() - n,
{
    let own = seq![(node.id, node.name@)];
    if n < node.children@.len() {
        let here = own + named_below(node, n);
        let next = own + named_below(node, n + 1);
        let child = named_nodes(node.children@[n as int]);
        assert(next =~= here + child);
        lemma_first_named_append(here, child, name, found, None);
        lemma_named_prefix(node, n + 1, name, found);
    }
}

/// The name of the autoload node that the bridge hangs under.
pub const BEVY_APP_AUTOLOAD_NAME: &'static str = "BevyAppSingleton";

/// The node of this name that belongs to the bridge. When the autoload is registered only its own
/// child counts; otherwise the whole tree is searched, if there is one.
pub fn get_bevy_app_child(
    autoload: Option<Option<InstanceId>>,
    tree: Option<&SceneNode>,
    child_name: &str,
) -> (r: Option<InstanceId>)
    ensures
        autoload matches Some(child) ==> r == child,
        autoload is None && tree is None ==> r is None,
        autoload is None ==> (tree matches Some(root) ==> is_first_named(
            named_nodes(*root),
            child_name@,
            r,
        )),
{
    match autoload {
        Some(child) => child,
        None => match tree {
            Some(root) => find_node_by_name(root, child_name),
            None => None,
        },
    }
}

/// The bridge is found below the autoload of this name.
pub proof fn law_autoload_has_its_name()
    ensures
        BEVY_APP_AUTOLOAD_NAME@ == "BevyAppSingleton"@,
{
}

} // verus!
