//! Collision signals of nodes: which ones a node has, and how a batch of them is connected.

use vstd::prelude::*;

use crate::ids::InstanceId;
use crate::text::{contains_text, texts};

verus! {

pub const COLLISION_MASK_BODY_ENTERED: u8 = 1;

pub const COLLISION_MASK_BODY_EXITED: u8 = 2;

pub const COLLISION_MASK_AREA_ENTERED: u8 = 4;

pub const COLLISION_MASK_AREA_EXITED: u8 = 8;

/// The collision signals of a node.
#[derive(Clone, Copy, Debug, PartialEq, Eq, Structural)]
pub enum CollisionSignal {
    BodyEntered,
    BodyExited,
    AreaEntered,
    AreaExited,
}

impl CollisionSignal {
    /// The bit that stands for the signal in a collision mask.
    pub open spec fn bit(self) -> u8 {
        match self {
            CollisionSignal::BodyEntered => COLLISION_MASK_BODY_ENTERED,
            CollisionSignal::BodyExited => COLLISION_MASK_BODY_EXITED,
            CollisionSignal::AreaEntered => COLLISION_MASK_AREA_ENTERED,
            CollisionSignal::AreaExited => COLLISION_MASK_AREA_EXITED,
        }
    }

    /// What the signal reports: that a contact began, or that it ended.
    pub open spec fn reports(self) -> CollisionMessageType {
        match self {
            CollisionSignal::BodyEntered => CollisionMessageType::Started,
            CollisionSignal::AreaEntered => CollisionMessageType::Started,
            CollisionSignal::BodyExited => CollisionMessageType::Ended,
            CollisionSignal::AreaExited => CollisionMessageType::Ended,
        }
    }
}

/// Whether a contact began or ended.
#[derive(Clone, Copy, Debug, PartialEq, Eq, Structural)]
pub enum CollisionMessageType {
    Started,
    Ended,
}

/// Which of the collision signals a node was found to have.
#[derive(Clone, Copy, Debug, PartialEq, Eq, Structural)]
pub struct NodeSignals {
    pub body_entered: bool,
    pub body_exited: bool,
    pub area_entered: bool,
    pub area_exited: bool,
}

impl NodeSignals {
    /// Whether the node has this signal.
    pub open spec fn has(self, signal: CollisionSignal) -> bool {
        match signal {
            CollisionSignal::BodyEntered => self.body_entered,
            CollisionSignal::BodyExited => self.body_exited,
            CollisionSignal::AreaEntered => self.area_entered,
            CollisionSignal::AreaExited => self.area_exited,
        }
    }
}

/// Whether a mask has any bit of `flag`.
pub open spec fn mask_has(mask: u8, flag: u8) -> bool {
    mask & flag != 0
}

/// The mask of a node with these signals: the sum of their bits.
pub open spec fn signal_mask(signals: NodeSignals) -> u8 {
    ((if signals.body_entered {
        1int
    } else {
        0
    }) + (if signals.body_exited {
        2int
    } else {
        0
    }) + (if signals.area_entered {
        4int
    } else {
        0
    }) + (if signals.area_exited {
        8int
    } else {
        0
    })) as u8
}

/// The collision mask of a node with these signals.
pub fn collision_mask_from_node(signals: &NodeSignals) -> (mask: u8)
    ensures
        mask == signal_mask(*signals),
        forall|s: CollisionSignal| #[trigger] mask_has(mask, s.bit()) == signals.has(s),
{
    let mut mask: u8 = 0;
    if signals.body_entered {
        mask = mask + COLLISION_MASK_BODY_ENTERED;
    }
    if signals.body_exited {
        mask = mask + COLLISION_MASK_BODY_EXITED;
    }
    if signals.area_entered {
        mask = mask + COLLISION_MASK_AREA_ENTERED;
    }
    if signals.area_exited {
        mask = mask + COLLISION_MASK_AREA_EXITED;
    }
    proof {
        law_mask_tells_signals(*signals);
    }
    mask
}

/// The mask of a node has the bit of exactly those signals that the node has, and no other bit.
pub proof fn law_mask_tells_signals(signals: NodeSignals)
    ensures
        forall|s: CollisionSignal| #[trigger]
            mask_has(signal_mask(signals), s.bit()) == signals.has(s),
        (signal_mask(signals) & 1 != 0) == signals.body_entered,
        (signal_mask(signals) & 2 != 0) == signals.body_exited,
        (signal_mask(signals) & 4 != 0) == signals.area_entered,
        (signal_mask(signals) & 8 != 0) == signals.area_exited,
        signal_mask(signals) < 16,
{
    let m = signal_mask(signals);
    let b0: u8 = if signals.body_entered { 1 } else { 0 };
    let b1: u8 = if signals.body_exited { 2 } else { 0 };
    let b2: u8 = if signals.area_entered { 4 } else { 0 };
    let b3: u8 = if signals.area_exited { 8 } else { 0 };
    assert(m == b0 + b1 + b2 + b3);
    assert((m & 1 != 0) == (b0 == 1) && (m & 2 != 0) == (b1 == 2) && (m & 4 != 0) == (b2 == 4) && (m
        & 8 != 0) == (b3 == 8)) by (bit_vector)
        requires
            m == b0 + b1 + b2 + b3,
            b0 == 0 || b0 == 1,
            b1 == 0 || b1 == 2,
            b2 == 0 || b2 == 4,
            b3 == 0 || b3 == 8,
    ;
}

/// Whether a mask has any bit of `flag`.
pub fn collision_mask_has(mask: u8, flag: u8) -> (r: bool)
    ensures
        r == mask_has(mask, flag),
{
    mask & flag != 0
}

/// Whether a mask is that of a collision body: one that reports contacts as they begin.
pub open spec fn mask_is_body(mask: u8) -> bool {
    mask_has(mask, COLLISION_MASK_BODY_ENTERED) || mask_has(mask, COLLISION_MASK_AREA_ENTERED)
}

/// Whether a mask is that of a collision body.
pub fn is_collision_body(mask: u8) -> (r: bool)
    ensures
        r == mask_is_body(mask),
{
    collision_mask_has(mask, COLLISION_MASK_BODY_ENTERED) || collision_mask_has(
        mask,
        COLLISION_MASK_AREA_ENTERED,
    )
}

/// Which collider a body is. Only areas know what they overlap already.
#[derive(Clone, Copy, Debug, PartialEq, Eq, Structural)]
pub enum ColliderKind {
    Area2D,
    Area3D,
    Other,
}

/// The collider that a node with this inheritance chain is.
pub open spec fn kind_of_chain(chain: Seq<Seq<char>>) -> ColliderKind {
    if chain.contains("Area2D"@) {
        ColliderKind::Area2D
    } else if chain.contains("Area3D"@) {
        ColliderKind::Area3D
    } else {
        ColliderKind::Other
    }
}

/// A node is an area of the plane if that class is in its chain, an area of space if only the other
/// is, and no area if neither is.
pub proof fn law_kind_tells_areas(chain: Seq<Seq<char>>)
    ensures
        kind_of_chain(chain) == ColliderKind::Area2D <==> chain.contains("Area2D"@),
        kind_of_chain(chain) == ColliderKind::Area3D <==> chain.contains("Area3D"@)
            && !chain.contains("Area2D"@),
        kind_of_chain(chain) == ColliderKind::Other <==> !chain.contains("Area2D"@)
            && !chain.contains("Area3D"@),
{
}

/// The collider that a node with this inheritance chain is.
pub fn collider_kind(chain: &Vec<String>) -> (r: ColliderKind)
    ensures
        r == kind_of_chain(texts(chain@)),
{
    if contains_text(chain, "Area2D") {
        ColliderKind::Area2D
    } else if contains_text(chain, "Area3D") {
        ColliderKind::Area3D
    } else {
        ColliderKind::Other
    }
}

/// A collision body whose signals are to be connected.
#[derive(Clone, Copy, Debug, PartialEq, Eq, Structural)]
pub struct PendingCollisionBody {
    pub node_id: InstanceId,
    pub mask: u8,
    pub kind: ColliderKind,
}

/// The two columns for connecting all bodies in one call: ids and masks, row by row.
pub fn bulk_connect_arguments(bodies: &Vec<PendingCollisionBody>) -> (r: (Vec<i64>, Vec<i64>))
    ensures
        r.0@.len() == bodies@.len(),
        r.1@.len() == bodies@.len(),
        forall|i: int|
            0 <= i < bodies@.len() ==> (#[trigger] r.0@[i]) == bodies@[i].node_id.value,
        forall|i: int| 0 <= i < bodies@.len() ==> (#[trigger] r.1@[i]) == bodies@[i].mask,
{
    let mut ids: Vec<i64> = Vec::new();
    let mut masks: Vec<i64> = Vec::new();
    for i in 0..bodies.len()
        invariant
            ids@.len() == i,
            masks@.len() == i,
            forall|k: int| 0 <= k < i ==> (#[trigger] ids@[k]) == bodies@[k].node_id.value,
            forall|k: int| 0 <= k < i ==> (#[trigger] masks@[k]) == bodies@[k].mask,
    {
        ids.push(bodies[i].node_id.to_i64());
        masks.push(bodies[i].mask as i64);
    }
    (ids, masks)
}

/// A signal of a node that is to be connected to the collision watcher, and what it will report.
#[derive(Clone, Copy, Debug, PartialEq, Eq, Structural)]
pub struct SignalConnection {
    pub node_id: InstanceId,
    pub signal: CollisionSignal,
    pub report: CollisionMessageType,
}

/// The connection of one signal of a node.
pub open spec fn connection(node_id: InstanceId, signal: CollisionSignal) -> SignalConnection {
    SignalConnection { node_id, signal, report: signal.reports() }
}

/// The signal by which it is told whether a body is connected already: the first enter signal it
/// has.
pub open spec fn probe_signal(mask: u8) -> CollisionSignal {
    if mask_has(mask, COLLISION_MASK_BODY_ENTERED) {
        CollisionSignal::BodyEntered
    } else {
        CollisionSignal::AreaEntered
    }
}

/// The signal by which it is told whether a body is connected already.
pub fn enter_signal(mask: u8) -> (r: CollisionSignal)
    ensures
        r == probe_signal(mask),
{
    if collision_mask_has(mask, COLLISION_MASK_BODY_ENTERED) {
        CollisionSignal::BodyEntered
    } else {
        CollisionSignal::AreaEntered
    }
}

/// What the engine says of a body before any signal of the batch is connected.
#[derive(Clone, Copy, Debug, PartialEq, Eq, Structural)]
pub struct BodyReading {
    /// Whether the node still exists.
    pub valid: bool,
    /// Whether its [`enter_signal`] is connected to the collision watcher.
    pub connected: bool,
}

/// The connection of a signal, where the mask has it.
pub open spec fn wanted(body: PendingCollisionBody, signal: CollisionSignal) -> Seq<
    SignalConnection,
> {
    if mask_has(body.mask, signal.bit()) {
        seq![connection(body.node_id, signal)]
    } else {
        Seq::empty()
    }
}

/// The connections of every signal that the mask of a body has.
pub open spec fn all_wanted(body: PendingCollisionBody) -> Seq<SignalConnection> {
    wanted(body, CollisionSignal::BodyEntered) + wanted(body, CollisionSignal::BodyExited) + wanted(
        body,
        CollisionSignal::AreaEntered,
    ) + wanted(body, CollisionSignal::AreaExited)
}

/// The connections to make for the first `n` bodies, one by one. A body that is gone, or whose
/// enter signal is connected by then, is passed over.
pub open spec fn planned(
    bodies: Seq<PendingCollisionBody>,
    readings: Seq<BodyReading>,
    n: nat,
) -> Seq<SignalConnection>
    decreases n,
{
    if n == 0 {
        Seq::empty()
    } else {
        let before = planned(bodies, readings, (n - 1) as nat);
        let body = bodies[n - 1];
        let reading = readings[n - 1];
        if !reading.valid || reading.connected || before.contains(
            connection(body.node_id, probe_signal(body.mask)),
        ) {
            before
        } else {
            before + all_wanted(body)
        }
    }
}

fn has_connection(list: &Vec<SignalConnection>, wanted: SignalConnection) -> (r: bool)
    ensures
        r == list@.contains(wanted),
{
    for i in 0..list.len()
        invariant
            forall|k: int| 0 <= k < i ==> (#[trigger] list@[k]) != wanted,
    {
        if list[i] == wanted {
            return true;
        }
    }
    false
}

fn push_wanted(
    list: &mut Vec<SignalConnection>,
    body: PendingCollisionBody,
    signal: CollisionSignal,
    flag: u8,
    report: CollisionMessageType,
)
    requires
        flag == signal.bit(),
        report == signal.reports(),
    ensures
        final(list)@ == old(list)@ + wanted(body, signal),
{
    if collision_mask_has(body.mask, flag) {
        list.push(SignalConnection { node_id: body.node_id, signal, report });
    }
}

/// The connections to make one by one, where they cannot be made in one call. A node that occurs
/// twice, or is wired already, is told by its enter signal, and none of its signals is connected
/// again.
pub fn fallback_connections(
    bodies: &Vec<PendingCollisionBody>,
    readings: &Vec<BodyReading>,
) -> (r: Vec<SignalConnection>)
    requires
        bodies@.len() == readings@.len(),
    ensures
        r@ == planned(bodies@, readings@, bodies@.len()),
{
    let mut r: Vec<SignalConnection> = Vec::new();
    for i in 0..bodies.len()
        invariant
            bodies@.len() == readings@.len(),
            r@ == planned(bodies@, readings@, i as nat),
    {
        let body = bodies[i];
        let reading = readings[i];
        if reading.valid && !reading.connected {
            let probe = SignalConnection {
                node_id: body.node_id,
                signal: enter_signal(body.mask),
                report: CollisionMessageType::Started,
            };
            if !has_connection(&r, probe) {
                let ghost before = r@;
                push_wanted(
                    &mut r,
                    body,
                    CollisionSignal::BodyEntered,
                    COLLISION_MASK_BODY_ENTERED,
                    CollisionMessageType::Started,
                );
                push_wanted(
                    &mut r,
                    body,
                    CollisionSignal::BodyExited,
                    COLLISION_MASK_BODY_EXITED,
                    CollisionMessageType::Ended,
                );
                push_wanted(
                    &mut r,
                    body,
                    CollisionSignal::AreaEntered,
                    COLLISION_MASK_AREA_ENTERED,
                    CollisionMessageType::Started,
                );
                push_wanted(
                    &mut r,
                    body,
                    CollisionSignal::AreaExited,
                    COLLISION_MASK_AREA_EXITED,
                    CollisionMessageType::Ended,
                );
                assert(r@ =~= before + all_wanted(body));
            }
        }
    }
    r
}

/// How the signals of a batch of bodies are connected.
pub enum ConnectPlan {
    /// In one call, with a column of ids and a column of masks.
    Bulk { ids: Vec<i64>, masks: Vec<i64> },
    /// One by one, in order.
    OneByOne { connections: Vec<SignalConnection> },
}

/// Connect the signals of a batch of bodies, in one call where the engine offers it. Readings are
/// needed only where it does not.
pub fn batch_connect_collision_signals(
    bulk_available: bool,
    bodies: &Vec<PendingCollisionBody>,
    readings: &Vec<BodyReading>,
) -> (r: ConnectPlan)
    requires
        !bulk_available ==> bodies@.len() == readings@.len(),
    ensures
        match r {
            ConnectPlan::Bulk { ids, masks } => {
                &&& bulk_available
                &&& ids@ == bodies@.map_values(|b: PendingCollisionBody| b.node_id.value)
                &&& masks@ == bodies@.map_values(|b: PendingCollisionBody| b.mask as i64)
            },
            ConnectPlan::OneByOne { connections } => {
                &&& !bulk_available
                &&& connections@ == planned(bodies@, readings@, bodies@.len())
            },
        },
{
    if bulk_available {
        let (ids, masks) = bulk_connect_arguments(bodies);
        assert(ids@ =~= bodies@.map_values(|b: PendingCollisionBody| b.node_id.value));
        assert(masks@ =~= bodies@.map_values(|b: PendingCollisionBody| b.mask as i64));
        ConnectPlan::Bulk { ids, masks }
    } else {
        ConnectPlan::OneByOne { connections: fallback_connections(bodies, readings) }
    }
}

/// A node that occurs more than once in a batch comes with the same mask each time, and every
/// body of a batch reports contacts as they begin.
pub open spec fn coherent(bodies: Seq<PendingCollisionBody>) -> bool {
    &&& forall|i: int| 0 <= i < bodies.len() ==> mask_is_body((#[trigger] bodies[i]).mask)
    &&& forall|i: int, j: int|
        #![trigger bodies[i], bodies[j]]
        0 <= i < bodies.len() && 0 <= j < bodies.len() && bodies[i].node_id == bodies[j].node_id
            ==> bodies[i].mask == bodies[j].mask
}

/// Whether a connection belongs to one of the first `n` bodies, and the enter signal of that body
/// is among the connections.
spec fn accounted(
    bodies: Seq<PendingCollisionBody>,
    plan: Seq<SignalConnection>,
    n: nat,
    c: SignalConnection,
) -> bool {
    exists|j: int|
        {
            &&& 0 <= j < n
            &&& (#[trigger] bodies[j]).node_id == c.node_id
            &&& plan.contains(connection(bodies[j].node_id, probe_signal(bodies[j].mask)))
        }
}

proof fn lemma_wanted(body: PendingCollisionBody)
    ensures
        all_wanted(body).no_duplicates(),
        forall|c: SignalConnection|
            #![trigger all_wanted(body).contains(c)]
            all_wanted(body).contains(c) ==> c.node_id == body.node_id && c == connection(
                body.node_id,
                c.signal,
            ),
        forall|s: CollisionSignal|
            #![trigger connection(body.node_id, s)]
            mask_has(body.mask, s.bit()) ==> all_wanted(body).contains(
                connection(body.node_id, s),
            ),
{
    let a = wanted(body, CollisionSignal::BodyEntered);
    let b = wanted(body, CollisionSignal::BodyExited);
    let c = wanted(body, CollisionSignal::AreaEntered);
    let d = wanted(body, CollisionSignal::AreaExited);
    let all = all_wanted(body);
    assert forall|s: CollisionSignal|
        #![trigger connection(body.node_id, s)]
        mask_has(body.mask, s.bit()) implies all.contains(connection(body.node_id, s)) by {
        match s {
            CollisionSignal::BodyEntered => {
                assert(all[0] == a[0]);
            },
            CollisionSignal::BodyExited => {
                assert(all[a.len() as int] == b[0]);
            },
            CollisionSignal::AreaEntered => {
                assert(all[(a.len() + b.len()) as int] == c[0]);
            },
            CollisionSignal::AreaExited => {
                assert(all[(a.len() + b.len() + c.len()) as int] == d[0]);
            },
        }
    }
}

/// Whether the connections of the body at `i` are all there once its enter signal is.
spec fn all_or_none(bodies: Seq<PendingCollisionBody>, plan: Seq<SignalConnection>, i: int) -> bool {
    plan.contains(connection(bodies[i].node_id, probe_signal(bodies[i].mask))) ==> forall|
        s: CollisionSignal,
    |
        mask_has(bodies[i].mask, #[trigger] s.bit()) ==> plan.contains(
            connection(bodies[i].node_id, s),
        )
}

/// What the connections planned for the first `n` bodies have in common.
spec fn plan_ok(bodies: Seq<PendingCollisionBody>, plan: Seq<SignalConnection>, n: nat) -> bool {
    &&& plan.no_duplicates()
    &&& forall|c: SignalConnection| #[trigger]
        plan.contains(c) ==> accounted(bodies, plan, n, c)
    &&& forall|i: int| 0 <= i < n ==> #[trigger] all_or_none(bodies, plan, i)
}

proof fn lemma_append_contains(
    a: Seq<SignalConnection>,
    b: Seq<SignalConnection>,
    c: SignalConnection,
)
    ensures
        (a + b).contains(c) <==> a.contains(c) || b.contains(c),
{
    let all = a + b;
    if a.contains(c) {
        let x = choose|x: int| 0 <= x < a.len() && a[x] == c;
        assert(all[x] == c);
    }
    if b.contains(c) {
        let x = choose|x: int| 0 <= x < b.len() && b[x] == c;
        assert(all[a.len() + x] == c);
    }
    if all.contains(c) {
        let x = choose|x: int| 0 <= x < all.len() && all[x] == c;
        if x < a.len() {
            assert(a[x] == c);
        } else {
            assert(b[x - a.len()] == c);
        }
    }
}

/// A connection of a node in a coherent batch brings the enter signal of that node along.
proof fn lemma_node_brings_probe(
    bodies: Seq<PendingCollisionBody>,
    plan: Seq<SignalConnection>,
    n: nat,
    c: SignalConnection,
    i: int,
) -> (j: int)
    requires
        coherent(bodies),
        n <= bodies.len(),
        plan_ok(bodies, plan, n),
        plan.contains(c),
        0 <= i < bodies.len(),
        bodies[i].node_id == c.node_id,
    ensures
        0 <= j < n,
        bodies[j].node_id == bodies[i].node_id,
        bodies[j].mask == bodies[i].mask,
        plan.contains(connection(bodies[i].node_id, probe_signal(bodies[i].mask))),
{
    assert(accounted(bodies, plan, n, c));
    let j = choose|j: int|
        {
            &&& 0 <= j < n
            &&& (#[trigger] bodies[j]).node_id == c.node_id
            &&& plan.contains(connection(bodies[j].node_id, probe_signal(bodies[j].mask)))
        };
    assert(bodies[i].mask == bodies[j].mask);
    j
}

proof fn lemma_plan_kept(bodies: Seq<PendingCollisionBody>, plan: Seq<SignalConnection>, n: nat)
    requires
        n < bodies.len(),
        coherent(bodies),
        plan_ok(bodies, plan, n),
    ensures
        plan_ok(bodies, plan, n + 1),
{
    assert forall|c: SignalConnection| #[trigger] plan.contains(c) implies accounted(
        bodies,
        plan,
        n + 1,
        c,
    ) by {
        assert(accounted(bodies, plan, n, c));
    }
    let body = bodies[n as int];
    let probe = connection(body.node_id, probe_signal(body.mask));
    if plan.contains(probe) {
        let j = lemma_node_brings_probe(bodies, plan, n, probe, n as int);
        assert(all_or_none(bodies, plan, j));
    }
    assert(all_or_none(bodies, plan, n as int));
}

proof fn lemma_plan_grown(bodies: Seq<PendingCollisionBody>, plan: Seq<SignalConnection>, n: nat)
    requires
        n < bodies.len(),
        coherent(bodies),
        plan_ok(bodies, plan, n),
        !plan.contains(
            connection(bodies[n as int].node_id, probe_signal(bodies[n as int].mask)),
        ),
    ensures
        plan_ok(bodies, plan + all_wanted(bodies[n as int]), n + 1),
        (plan + all_wanted(bodies[n as int])).contains(
            connection(bodies[n as int].node_id, probe_signal(bodies[n as int].mask)),
        ),
{
    let body = bodies[n as int];
    let probe = connection(body.node_id, probe_signal(body.mask));
    let more = all_wanted(body);
    let after = plan + more;
    lemma_wanted(body);
    assert(mask_is_body(body.mask));
    assert(mask_has(body.mask, probe_signal(body.mask).bit()));
    assert(more.contains(probe));
    lemma_append_contains(plan, more, probe);
    assert forall|c: SignalConnection| plan.contains(c) implies c.node_id != body.node_id by {
        if c.node_id == body.node_id {
            let j = lemma_node_brings_probe(bodies, plan, n, c, n as int);
        }
    }
    assert(after.no_duplicates()) by {
        assert forall|x: int, y: int|
            0 <= x < after.len() && 0 <= y < after.len() && x != y implies after[x]
            != after[y] by {
            if x < plan.len() && y >= plan.len() {
                assert(plan.contains(after[x]));
                assert(more.contains(more[y - plan.len()]));
            } else if x >= plan.len() && y < plan.len() {
                assert(plan.contains(after[y]));
                assert(more.contains(more[x - plan.len()]));
            } else if x >= plan.len() {
                assert(more[x - plan.len()] != more[y - plan.len()]);
            }
        }
    }
    assert forall|c: SignalConnection| #[trigger] after.contains(c) implies accounted(
        bodies,
        after,
        n + 1,
        c,
    ) by {
        lemma_append_contains(plan, more, c);
        if plan.contains(c) {
            assert(accounted(bodies, plan, n, c));
            let j = choose|j: int|
                {
                    &&& 0 <= j < n
                    &&& (#[trigger] bodies[j]).node_id == c.node_id
                    &&& plan.contains(connection(bodies[j].node_id, probe_signal(bodies[j].mask)))
                };
            lemma_append_contains(
                plan,
                more,
                connection(bodies[j].node_id, probe_signal(bodies[j].mask)),
            );
        } else {
            assert(bodies[n as int].node_id == c.node_id);
        }
    }
    assert forall|i: int| 0 <= i < n + 1 implies #[trigger] all_or_none(bodies, after, i) by {
        let own = connection(bodies[i].node_id, probe_signal(bodies[i].mask));
        if after.contains(own) {
            lemma_append_contains(plan, more, own);
            assert forall|s: CollisionSignal|
                mask_has(bodies[i].mask, #[trigger] s.bit()) implies after.contains(
                connection(bodies[i].node_id, s),
            ) by {
                lemma_append_contains(plan, more, connection(bodies[i].node_id, s));
                if plan.contains(own) {
                    if i < n {
                        assert(all_or_none(bodies, plan, i));
                    }
                } else {
                    assert(bodies[i].node_id == body.node_id);
                    assert(bodies[i].mask == body.mask);
                }
            }
        }
    }
}

proof fn lemma_plan(bodies: Seq<PendingCollisionBody>, readings: Seq<BodyReading>, n: nat)
    requires
        bodies.len() == readings.len(),
        n <= bodies.len(),
        coherent(bodies),
    ensures
        plan_ok(bodies, planned(bodies, readings, n), n),
    decreases n,
{
    if n > 0 {
        let k = (n - 1) as nat;
        lemma_plan(bodies, readings, k);
        let before = planned(bodies, readings, k);
        let body = bodies[n - 1];
        let reading = readings[n - 1];
        if !reading.valid || reading.connected || before.contains(
            connection(body.node_id, probe_signal(body.mask)),
        ) {
            lemma_plan_kept(bodies, before, k);
        } else {
            lemma_plan_grown(bodies, before, k);
        }
    }
}

proof fn lemma_probe_planned(
    bodies: Seq<PendingCollisionBody>,
    readings: Seq<BodyReading>,
    i: int,
    n: nat,
)
    requires
        bodies.len() == readings.len(),
        coherent(bodies),
        0 <= i < n <= bodies.len(),
        readings[i].valid,
        !readings[i].connected,
    ensures
        planned(bodies, readings, n).contains(
            connection(bodies[i].node_id, probe_signal(bodies[i].mask)),
        ),
    decreases n,
{
    let k = (n - 1) as nat;
    let before = planned(bodies, readings, k);
    let probe = connection(bodies[i].node_id, probe_signal(bodies[i].mask));
    if i == k {
        lemma_plan(bodies, readings, k);
        if !before.contains(probe) {
            lemma_plan_grown(bodies, before, k);
        }
    } else {
        lemma_probe_planned(bodies, readings, i, k);
        lemma_append_contains(before, all_wanted(bodies[n - 1]), probe);
    }
}

/// No signal is connected twice in a batch, however often a node occurs in it.
pub proof fn law_no_signal_is_connected_twice(
    bodies: Seq<PendingCollisionBody>,
    readings: Seq<BodyReading>,
)
    requires
        bodies.len() == readings.len(),
        coherent(bodies),
    ensures
        planned(bodies, readings, bodies.len()).no_duplicates(),
{
    lemma_plan(bodies, readings, bodies.len());
}

/// Every body that exists and was not connected before the batch ends up with each signal of its
/// mask connected.
pub proof fn law_every_body_is_connected(
    bodies: Seq<PendingCollisionBody>,
    readings: Seq<BodyReading>,
    i: int,
    signal: CollisionSignal,
)
    requires
        bodies.len() == readings.len(),
        coherent(bodies),
        0 <= i < bodies.len(),
        readings[i].valid,
        !readings[i].connected,
        mask_has(bodies[i].mask, signal.bit()),
    ensures
        planned(bodies, readings, bodies.len()).contains(connection(bodies[i].node_id, signal)),
{
    lemma_plan(bodies, readings, bodies.len());
    lemma_probe_planned(bodies, readings, i, bodies.len());
    assert(all_or_none(bodies, planned(bodies, readings, bodies.len()), i));
}

/// What the engine says of a body once the signals are connected.
#[derive(Clone, Copy, Debug, PartialEq, Eq, Structural)]
pub struct ColliderReading {
    /// Whether the node still exists.
    pub valid: bool,
    pub is_area_2d: bool,
    pub is_area_3d: bool,
    /// For a 2D rigid body, whether its contact monitor is on.
    pub rigid_2d_monitor: Option<bool>,
    /// For a 3D rigid body, whether its contact monitor is on.
    pub rigid_3d_monitor: Option<bool>,
}

/// What is left to do for a body once its signals are connected.
#[derive(Clone, Copy, Debug, PartialEq, Eq, Structural)]
pub enum ColliderFollowUp {
    Nothing,
    /// Report what the area overlaps already.
    SeedArea2D,
    SeedArea3D,
    /// Warn that the signals of the rigid body will never fire.
    WarnContactMonitor,
}

/// Whether a node is a rigid body whose contact monitor is off.
pub open spec fn dead_monitor(rigid_2d: Option<bool>, rigid_3d: Option<bool>) -> bool {
    match rigid_2d {
        Some(on) => !on,
        None => rigid_3d == Some(false),
    }
}

/// Whether a node is a rigid body whose contact monitor is off: such a body never fires the
/// signals that were connected.
pub fn is_rigid_body_without_contact_monitor(
    rigid_2d: Option<bool>,
    rigid_3d: Option<bool>,
) -> (r: bool)
    ensures
        r == dead_monitor(rigid_2d, rigid_3d),
{
    match rigid_2d {
        Some(on) => !on,
        None => match rigid_3d {
            Some(on) => !on,
            None => false,
        },
    }
}

/// What is left to do for a body of this kind. A kind that no longer fits the node leaves nothing
/// to do.
pub open spec fn follow_up_of(kind: ColliderKind, reading: ColliderReading) -> ColliderFollowUp {
    if !reading.valid {
        ColliderFollowUp::Nothing
    } else {
        match kind {
            ColliderKind::Area2D => if reading.is_area_2d {
                ColliderFollowUp::SeedArea2D
            } else {
                ColliderFollowUp::Nothing
            },
            ColliderKind::Area3D => if reading.is_area_3d {
                ColliderFollowUp::SeedArea3D
            } else {
                ColliderFollowUp::Nothing
            },
            ColliderKind::Other => if dead_monitor(
                reading.rigid_2d_monitor,
                reading.rigid_3d_monitor,
            ) {
                ColliderFollowUp::WarnContactMonitor
            } else {
                ColliderFollowUp::Nothing
            },
        }
    }
}

/// What is left to do for a body of this kind.
pub fn collider_follow_up(kind: ColliderKind, reading: &ColliderReading) -> (r: ColliderFollowUp)
    ensures
        r == follow_up_of(kind, *reading),
{
    if !reading.valid {
        return ColliderFollowUp::Nothing;
    }
    match kind {
        ColliderKind::Area2D => if reading.is_area_2d {
            ColliderFollowUp::SeedArea2D
        } else {
            ColliderFollowUp::Nothing
        },
        ColliderKind::Area3D => if reading.is_area_3d {
            ColliderFollowUp::SeedArea3D
        } else {
            ColliderFollowUp::Nothing
        },
        ColliderKind::Other => if is_rigid_body_without_contact_monitor(
            reading.rigid_2d_monitor,
            reading.rigid_3d_monitor,
        ) {
            ColliderFollowUp::WarnContactMonitor
        } else {
            ColliderFollowUp::Nothing
        },
    }
}

/// What an area overlaps. A list counts only where its flag is up.
pub struct OverlapReading {
    pub has_bodies: bool,
    pub bodies: Vec<InstanceId>,
    pub has_areas: bool,
    pub areas: Vec<InstanceId>,
}

/// A contact to report to the collision watcher as if its enter signal had fired.
#[derive(Clone, Copy, Debug, PartialEq, Eq, Structural)]
pub struct SeededContact {
    pub other: InstanceId,
    pub area: InstanceId,
    pub report: CollisionMessageType,
}

/// The contacts of an area with each of `others`, as they begin.
pub open spec fn contacts_with(area: InstanceId, others: Seq<InstanceId>) -> Seq<SeededContact> {
    others.map_values(
        |other: InstanceId|
            SeededContact { other, area, report: CollisionMessageType::Started },
    )
}

fn push_contacts(list: &mut Vec<SeededContact>, area: InstanceId, others: &Vec<InstanceId>)
    ensures
        final(list)@ == old(list)@ + contacts_with(area, others@),
{
    let ghost before = list@;
    for i in 0..others.len()
        invariant
            list@ =~= before + contacts_with(area, others@.take(i as int)),
    {
        list.push(
            SeededContact { other: others[i], area, report: CollisionMessageType::Started },
        );
    }
    assert(others@.take(others@.len() as int) =~= others@);
}

/// The contacts of an area that began before its signals were connected: with the bodies it
/// overlaps, then with the areas.
pub fn seed_overlaps(area: InstanceId, reading: &OverlapReading) -> (r: Vec<SeededContact>)
    ensures
        r@ == (if reading.has_bodies {
            contacts_with(area, reading.bodies@)
        } else {
            Seq::empty()
        }) + (if reading.has_areas {
            contacts_with(area, reading.areas@)
        } else {
            Seq::empty()
        }),
{
    let mut r: Vec<SeededContact> = Vec::new();
    if reading.has_bodies {
        push_contacts(&mut r, area, &reading.bodies);
    }
    if reading.has_areas {
        push_contacts(&mut r, area, &reading.areas);
    }
    r
}

/// What is left to do for a body of a batch.
#[derive(Clone, Copy, Debug, PartialEq, Eq, Structural)]
pub struct BodyFollowUp {
    pub node_id: InstanceId,
    pub follow_up: ColliderFollowUp,
}

/// What is left to do for the bodies of a batch, in order.
pub open spec fn follow_ups(
    bodies: Seq<PendingCollisionBody>,
    readings: Seq<ColliderReading>,
) -> Seq<BodyFollowUp> {
    Seq::new(
        bodies.len(),
        |i: int|
            BodyFollowUp {
                node_id: bodies[i].node_id,
                follow_up: follow_up_of(bodies[i].kind, readings[i]),
            },
    )
}

/// What the batch of bodies waits for.
#[derive(Clone, Copy, Debug, PartialEq, Eq, Structural)]
pub enum ConnectStage {
    /// To begin.
    Bodies,
    /// That the signals were connected.
    Connections,
    /// Nothing any more.
    Over,
}

/// What the host tells the batch.
#[derive(Debug)]
pub enum ConnectEvent {
    /// What the bodies are like before anything is connected. Where they are connected in one call,
    /// no readings are needed.
    Begin { bulk_available: bool, readings: Vec<BodyReading> },
    /// The signals were connected, and this is what the bodies are like now.
    Connected { colliders: Vec<ColliderReading> },
}

/// What the batch asks of the host.
pub enum ConnectAction {
    Connect(ConnectPlan),
    FollowUp(Vec<BodyFollowUp>),
}

/// Whether an event is what the batch waits for, with a reading of each body where they are needed.
pub open spec fn connect_awaited(
    stage: ConnectStage,
    bodies: Seq<PendingCollisionBody>,
    event: ConnectEvent,
) -> bool {
    match (stage, event) {
        (ConnectStage::Bodies, ConnectEvent::Begin { bulk_available, readings }) => {
            !bulk_available ==> bodies.len() == readings@.len()
        },
        (ConnectStage::Connections, ConnectEvent::Connected { colliders }) => {
            bodies.len() == colliders@.len()
        },
        _ => false,
    }
}

/// What a step of the batch comes to: first the signals are connected, and only then comes what is
/// left to do for the bodies, of which what an area overlaps is a part.
pub open spec fn connect_stepped(
    bodies: Seq<PendingCollisionBody>,
    event: ConnectEvent,
    next_stage: ConnectStage,
    action: ConnectAction,
) -> bool {
    match event {
        ConnectEvent::Begin { bulk_available, readings } => {
            &&& next_stage is Connections
            &&& match action {
                ConnectAction::Connect(ConnectPlan::Bulk { ids, masks }) => {
                    &&& bulk_available
                    &&& ids@ == bodies.map_values(|b: PendingCollisionBody| b.node_id.value)
                    &&& masks@ == bodies.map_values(|b: PendingCollisionBody| b.mask as i64)
                },
                ConnectAction::Connect(ConnectPlan::OneByOne { connections }) => {
                    &&& !bulk_available
                    &&& connections@ == planned(bodies, readings@, bodies.len())
                },
                ConnectAction::FollowUp(_) => false,
            }
        },
        ConnectEvent::Connected { colliders } => {
            &&& next_stage is Over
            &&& action matches ConnectAction::FollowUp(list) && list@ == follow_ups(
                bodies,
                colliders@,
            )
        },
    }
}

/// One step of the way of a batch of bodies: their signals are connected, and then what is left to do
/// for each comes.
pub fn connect_bodies(
    stage: &mut ConnectStage,
    bodies: &Vec<PendingCollisionBody>,
    event: ConnectEvent,
) -> (action: ConnectAction)
    requires
        connect_awaited(*old(stage), bodies@, event),
    ensures
        connect_stepped(bodies@, event, *final(stage), action),
{
    match event {
        ConnectEvent::Begin { bulk_available, readings } => {
            *stage = ConnectStage::Connections;
            ConnectAction::Connect(
                batch_connect_collision_signals(bulk_available, bodies, &readings),
            )
        },
        ConnectEvent::Connected { colliders } => {
            *stage = ConnectStage::Over;
            let mut list: Vec<BodyFollowUp> = Vec::new();
            for i in 0..bodies.len()
                invariant
                    bodies@.len() == colliders@.len(),
                    list@.len() == i,
                    forall|k: int|
                        0 <= k < i ==> #[trigger] list@[k] == follow_ups(bodies@, colliders@)[k],
            {
                list.push(
                    BodyFollowUp {
                        node_id: bodies[i].node_id,
                        follow_up: collider_follow_up(bodies[i].kind, &colliders[i]),
                    },
                );
            }
            assert(list@ =~= follow_ups(bodies@, colliders@));
            ConnectAction::FollowUp(list)
        },
    }
}

/// Where a batch stands after a step.
pub open spec fn connect_rank(stage: ConnectStage) -> int {
    match stage {
        ConnectStage::Bodies => 0,
        ConnectStage::Connections => 1,
        ConnectStage::Over => 2,
    }
}

/// What is left to do for the bodies comes after their signals were connected, and the batch is over
/// then: every step brings it one stage on, and only that from the connections asks for the rest.
pub proof fn law_follow_ups_come_after_connections(
    stage: ConnectStage,
    bodies: Seq<PendingCollisionBody>,
    event: ConnectEvent,
    next_stage: ConnectStage,
    action: ConnectAction,
)
    requires
        connect_awaited(stage, bodies, event),
        connect_stepped(bodies, event, next_stage, action),
    ensures
        connect_rank(next_stage) == connect_rank(stage) + 1,
        action is Connect <==> stage is Bodies,
        action is FollowUp <==> stage is Connections,
{
}

/// The bit by which a mask tells that a node has a signal.
pub proof fn law_each_signal_has_its_bit(mask: u8, flag: u8)
    ensures
        COLLISION_MASK_BODY_ENTERED == 1 && CollisionSignal::BodyEntered.bit() == 1,
        COLLISION_MASK_BODY_EXITED == 2 && CollisionSignal::BodyExited.bit() == 2,
        COLLISION_MASK_AREA_ENTERED == 4 && CollisionSignal::AreaEntered.bit() == 4,
        COLLISION_MASK_AREA_EXITED == 8 && CollisionSignal::AreaExited.bit() == 8,
        mask_has(mask, flag) <==> mask & flag != 0,
        mask_is_body(mask) <==> mask & 1 != 0 || mask & 4 != 0,
        probe_signal(mask) == CollisionSignal::BodyEntered <==> mask & 1 != 0,
        probe_signal(mask) == CollisionSignal::AreaEntered <==> mask & 1 == 0,
{
}

/// Whether a connection is one that a body asks for: it is about the node of the body, its signal is
/// one that the mask of the body has, and it reports what that signal is about.
pub open spec fn serves(c: SignalConnection, body: PendingCollisionBody) -> bool {
    &&& c.node_id == body.node_id
    &&& match c.signal {
        CollisionSignal::BodyEntered => body.mask & 1 != 0 && c.report is Started,
        CollisionSignal::BodyExited => body.mask & 2 != 0 && c.report is Ended,
        CollisionSignal::AreaEntered => body.mask & 4 != 0 && c.report is Started,
        CollisionSignal::AreaExited => body.mask & 8 != 0 && c.report is Ended,
    }
}

/// A signal is connected only for a body that exists and was not connected before the batch, and only
/// one that its mask has, to report what the signal is about.
pub proof fn law_only_wanted_signals_are_connected(
    bodies: Seq<PendingCollisionBody>,
    readings: Seq<BodyReading>,
    n: nat,
    c: SignalConnection,
)
    requires
        planned(bodies, readings, n).contains(c),
    ensures
        exists|i: int|
            0 <= i < n && serves(c, #[trigger] bodies[i]) && readings[i].valid
                && !readings[i].connected,
    decreases n,
{
    if n > 0 {
        let k = (n - 1) as nat;
        let before = planned(bodies, readings, k);
        if before.contains(c) {
            law_only_wanted_signals_are_connected(bodies, readings, k, c);
        } else {
            let more = all_wanted(bodies[n - 1]);
            lemma_append_contains(before, more, c);
            assert(serves(c, bodies[n - 1]));
        }
    }
}

/// Each body of a batch that exists and was not connected before gets every connection that it asks
/// for.
pub proof fn law_every_wanted_signal_is_connected(
    bodies: Seq<PendingCollisionBody>,
    readings: Seq<BodyReading>,
    i: int,
    c: SignalConnection,
)
    requires
        bodies.len() == readings.len(),
        coherent(bodies),
        0 <= i < bodies.len(),
        readings[i].valid,
        !readings[i].connected,
        serves(c, bodies[i]),
    ensures
        planned(bodies, readings, bodies.len()).contains(c),
{
    law_every_body_is_connected(bodies, readings, i, c.signal);
    assert(c == connection(bodies[i].node_id, c.signal));
}

/// What the host is asked to connect: in one call, where that is offered, a row for each body, with
/// its id and its mask; else the single connections.
pub proof fn law_bulk_call_has_a_row_for_each_body(
    bodies: Seq<PendingCollisionBody>,
    bulk_available: bool,
    readings: Vec<BodyReading>,
    next_stage: ConnectStage,
    action: ConnectAction,
    i: int,
)
    requires
        connect_stepped(
            bodies,
            ConnectEvent::Begin { bulk_available, readings },
            next_stage,
            action,
        ),
    ensures
        next_stage == ConnectStage::Connections,
        bulk_available ==> {
            &&& action matches ConnectAction::Connect(ConnectPlan::Bulk { ids, masks })
            &&& ids@.len() == bodies.len() && masks@.len() == bodies.len()
            &&& 0 <= i < bodies.len() ==> ids@[i] == bodies[i].node_id.value && masks@[i]
                == bodies[i].mask
        },
        !bulk_available ==> {
            &&& action matches ConnectAction::Connect(ConnectPlan::OneByOne { connections })
            &&& connections@ == planned(bodies, readings@, bodies.len())
        },
{
}

/// Once the signals are connected, each body gets what is left to do for it: an area that still is
/// one reports what it overlaps, a rigid body without its contact monitor is warned about, and of
/// nothing else, nor of a node that is gone, is anything said.
pub proof fn law_each_body_is_followed_up(
    bodies: Seq<PendingCollisionBody>,
    colliders: Vec<ColliderReading>,
    next_stage: ConnectStage,
    action: ConnectAction,
    i: int,
)
    requires
        connect_stepped(bodies, ConnectEvent::Connected { colliders }, next_stage, action),
        0 <= i < bodies.len(),
    ensures
        next_stage == ConnectStage::Over,
        ({
            let body = bodies[i];
            let reading = colliders@[i];
            let mute = reading.rigid_2d_monitor == Some(false) || (reading.rigid_2d_monitor is None
                && reading.rigid_3d_monitor == Some(false));
            &&& action matches ConnectAction::FollowUp(list)
            &&& list@.len() == bodies.len()
            &&& list@[i].node_id == body.node_id
            &&& list@[i].follow_up == ColliderFollowUp::SeedArea2D <==> reading.valid && body.kind
                == ColliderKind::Area2D && reading.is_area_2d
            &&& list@[i].follow_up == ColliderFollowUp::SeedArea3D <==> reading.valid && body.kind
                == ColliderKind::Area3D && reading.is_area_3d
            &&& list@[i].follow_up == ColliderFollowUp::WarnContactMonitor <==> reading.valid
                && body.kind == ColliderKind::Other && mute
        }),
{
}

/// A rigid body never fires its signals if its contact monitor is off; what is no rigid body always
/// does.
pub proof fn law_dead_monitor_is_off(rigid_2d: Option<bool>, rigid_3d: Option<bool>)
    ensures
        rigid_2d is Some ==> dead_monitor(rigid_2d, rigid_3d) == (rigid_2d == Some(false)),
        rigid_2d is None && rigid_3d is Some ==> dead_monitor(rigid_2d, rigid_3d) == (rigid_3d
            == Some(false)),
        rigid_2d is None && rigid_3d is None ==> !dead_monitor(rigid_2d, rigid_3d),
{
}

/// What is left to do depends on the kind of the body and on what the node is now.
pub proof fn law_follow_up_fits_the_node(kind: ColliderKind, reading: ColliderReading)
    ensures
        follow_up_of(kind, reading) == ColliderFollowUp::SeedArea2D <==> reading.valid && kind
            == ColliderKind::Area2D && reading.is_area_2d,
        follow_up_of(kind, reading) == ColliderFollowUp::SeedArea3D <==> reading.valid && kind
            == ColliderKind::Area3D && reading.is_area_3d,
        follow_up_of(kind, reading) == ColliderFollowUp::WarnContactMonitor <==> reading.valid
            && kind == ColliderKind::Other && (reading.rigid_2d_monitor == Some(false) || (
        reading.rigid_2d_monitor is None && reading.rigid_3d_monitor == Some(false))),
{
}

/// An area reports a contact that began with each of those it overlaps, in their order.
pub proof fn law_overlaps_are_reported_one_by_one(
    area: InstanceId,
    others: Seq<InstanceId>,
    i: int,
)
    ensures
        contacts_with(area, others).len() == others.len(),
        0 <= i < others.len() ==> {
            let contact = contacts_with(area, others)[i];
            contact.other == others[i] && contact.area == area && contact.report is Started
        },
{
}

/// How one more body adds to the connections: not at all, if it is gone, or was connected before, or
/// its enter signal is among the connections by then, which is the first of the two that its mask has;
/// else by each connection that it asks for, behind those that are there.
pub proof fn law_body_adds_its_connections(
    bodies: Seq<PendingCollisionBody>,
    readings: Seq<BodyReading>,
    n: nat,
    c: SignalConnection,
)
    ensures
        ({
            let body = bodies[n as int];
            let reading = readings[n as int];
            let before = planned(bodies, readings, n);
            let after = planned(bodies, readings, n + 1);
            let enter = SignalConnection {
                node_id: body.node_id,
                signal: if body.mask & 1 != 0 {
                    CollisionSignal::BodyEntered
                } else {
                    CollisionSignal::AreaEntered
                },
                report: CollisionMessageType::Started,
            };
            let adds = reading.valid && !reading.connected && !before.contains(enter);
            &&& planned(bodies, readings, 0).len() == 0
            &&& !adds ==> after == before
            &&& adds ==> {
                &&& before.is_prefix_of(after)
                &&& after.contains(c) <==> before.contains(c) || serves(c, body)
                &&& after.skip(before.len() as int).no_duplicates()
            }
        }),
{
    let body = bodies[n as int];
    let before = planned(bodies, readings, n);
    let after = planned(bodies, readings, n + 1);
    let more = all_wanted(body);
    lemma_wanted(body);
    lemma_append_contains(before, more, c);
    assert((before + more).skip(before.len() as int) =~= more);
    if serves(c, body) {
        assert(c == connection(body.node_id, c.signal));
    }
    if more.contains(c) {
        let a = wanted(body, CollisionSignal::BodyEntered);
        let b = wanted(body, CollisionSignal::BodyExited);
        let d = wanted(body, CollisionSignal::AreaEntered);
        let e = wanted(body, CollisionSignal::AreaExited);
        lemma_append_contains(a + b + d, e, c);
        lemma_append_contains(a + b, d, c);
        lemma_append_contains(a, b, c);
        assert(serves(c, body));
    }
}

} // verus!
