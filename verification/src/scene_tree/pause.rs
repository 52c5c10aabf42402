//! The pause of the scene tree, mirrored onto the virtual clock.

use vstd::prelude::*;

verus! {

/// What the mirror remembers between frames.
#[derive(Clone, Copy, Debug, PartialEq, Eq, Structural)]
pub struct PauseBridge {
    /// Whether the tree was paused at the last frame.
    pub last_tree_paused: bool,
    /// Whether the clock is paused because the mirror paused it.
    pub paused_by_mirror: bool,
}

impl Default for PauseBridge {
    fn default() -> (r: PauseBridge)
        ensures
            r == fresh_bridge(),
    {
        PauseBridge { last_tree_paused: false, paused_by_mirror: false }
    }
}

/// The mirror before the first frame.
pub open spec fn fresh_bridge() -> PauseBridge {
    PauseBridge { last_tree_paused: false, paused_by_mirror: false }
}

/// What to do with the virtual clock.
#[derive(Clone, Copy, Debug, PartialEq, Eq, Structural)]
pub enum PauseAction {
    Keep,
    Pause,
    Unpause,
}

/// What a frame does with the clock. Only a change of the tree's pause does anything, and only a
/// pause that the mirror made is ever ended by it.
pub open spec fn pause_action(
    bridge: PauseBridge,
    clock_paused: bool,
    tree_paused: bool,
) -> PauseAction {
    if tree_paused == bridge.last_tree_paused {
        PauseAction::Keep
    } else if tree_paused && !clock_paused {
        PauseAction::Pause
    } else if !tree_paused && bridge.paused_by_mirror {
        PauseAction::Unpause
    } else {
        PauseAction::Keep
    }
}

/// What the mirror remembers after a frame.
pub open spec fn bridge_after(
    bridge: PauseBridge,
    clock_paused: bool,
    tree_paused: bool,
) -> PauseBridge {
    PauseBridge {
        last_tree_paused: tree_paused,
        paused_by_mirror: match pause_action(bridge, clock_paused, tree_paused) {
            PauseAction::Pause => true,
            PauseAction::Unpause => false,
            PauseAction::Keep => bridge.paused_by_mirror,
        },
    }
}

/// One frame of the mirror. Without a virtual clock (`None`) there is nothing to mirror.
pub fn mirror_tree_pause_to_virtual(
    bridge: &mut PauseBridge,
    clock_paused: Option<bool>,
    tree_paused: bool,
) -> (r: PauseAction)
    ensures
        match clock_paused {
            Some(paused) => r == pause_action(*old(bridge), paused, tree_paused) && *final(bridge)
                == bridge_after(*old(bridge), paused, tree_paused),
            None => r == PauseAction::Keep && *final(bridge) == *old(bridge),
        },
{
    let paused: bool = match clock_paused {
        Some(paused) => paused,
        None => {
            return PauseAction::Keep;
        },
    };
    if tree_paused == bridge.last_tree_paused {
        return PauseAction::Keep;
    }
    let mut action = PauseAction::Keep;
    if tree_paused {
        // Do not stack onto a pause that is there already: only claim one that is made here.
        if !paused {
            action = PauseAction::Pause;
            bridge.paused_by_mirror = true;
        }
    } else if bridge.paused_by_mirror {
        action = PauseAction::Unpause;
        bridge.paused_by_mirror = false;
    }
    bridge.last_tree_paused = tree_paused;
    action
}

/// The mirror together with the clock.
pub struct MirroredClock {
    pub bridge: PauseBridge,
    pub paused: bool,
}

/// What can happen to the clock: a frame of the mirror, or the game pausing or unpausing it.
pub enum ClockEvent {
    Frame { tree_paused: bool },
    GamePauses,
    GameUnpauses,
}

/// The mirror and the clock after an event.
pub open spec fn clock_after(c: MirroredClock, event: ClockEvent) -> MirroredClock {
    match event {
        ClockEvent::Frame { tree_paused } => MirroredClock {
            bridge: bridge_after(c.bridge, c.paused, tree_paused),
            paused: match pause_action(c.bridge, c.paused, tree_paused) {
                PauseAction::Pause => true,
                PauseAction::Unpause => false,
                PauseAction::Keep => c.paused,
            },
        },
        ClockEvent::GamePauses => MirroredClock { paused: true, ..c },
        ClockEvent::GameUnpauses => MirroredClock { paused: false, ..c },
    }
}

/// The mirror and the clock after the first `n` events.
pub open spec fn clock_run(c: MirroredClock, events: Seq<ClockEvent>, n: nat) -> MirroredClock
    decreases n,
{
    if n == 0 {
        c
    } else {
        clock_after(clock_run(c, events, (n - 1) as nat), events[n - 1])
    }
}

/// The mirror is edge-triggered: a frame at which the tree is paused as at the last frame changes
/// nothing.
pub proof fn law_only_edges_count(c: MirroredClock, tree_paused: bool)
    requires
        tree_paused == c.bridge.last_tree_paused,
    ensures
        clock_after(c, ClockEvent::Frame { tree_paused }) == c,
{
}

/// The mirror ends no pause but its own: a pause that the game made is still there after any
/// number of pauses and unpauses of the tree, until the game ends it.
pub proof fn law_pause_of_the_game_survives(c: MirroredClock, events: Seq<ClockEvent>, n: nat)
    requires
        n <= events.len(),
        c.paused,
        !c.bridge.paused_by_mirror,
        forall|i: int| 0 <= i < events.len() ==> (#[trigger] events[i]) !is GameUnpauses,
    ensures
        clock_run(c, events, n).paused,
        !clock_run(c, events, n).bridge.paused_by_mirror,
    decreases n,
{
    if n > 0 {
        law_pause_of_the_game_survives(c, events, (n - 1) as nat);
        assert(events[n - 1] !is GameUnpauses);
    }
}

/// While the game leaves the clock alone, the clock is paused exactly while the tree is.
pub proof fn law_clock_follows_the_tree(c: MirroredClock, events: Seq<ClockEvent>, n: nat)
    requires
        n <= events.len(),
        c.paused == c.bridge.last_tree_paused,
        c.bridge.paused_by_mirror == c.paused,
        forall|i: int| 0 <= i < events.len() ==> (#[trigger] events[i]) is Frame,
    ensures
        n > 0 ==> clock_run(c, events, n).paused == events[n - 1]->tree_paused,
        clock_run(c, events, n).paused == clock_run(c, events, n).bridge.last_tree_paused,
        clock_run(c, events, n).bridge.paused_by_mirror == clock_run(c, events, n).paused,
    decreases n,
{
    if n > 0 {
        law_clock_follows_the_tree(c, events, (n - 1) as nat);
        assert(events[n - 1] is Frame);
    }
}

/// The mirror claims a pause only while the tree is paused, whatever the game does meanwhile.
pub proof fn law_claim_ends_with_the_tree_pause(
    paused: bool,
    events: Seq<ClockEvent>,
    n: nat,
)
    ensures
        ({
            let end = clock_run(MirroredClock { bridge: fresh_bridge(), paused }, events, n).bridge;
            end.paused_by_mirror ==> end.last_tree_paused
        }),
    decreases n,
{
    if n > 0 {
        law_claim_ends_with_the_tree_pause(paused, events, (n - 1) as nat);
    }
}

/// What a frame does with the clock, and what is remembered of it. The clock is paused when the tree
/// gets paused while the clock runs, and that pause is claimed. It is set going when the tree gets
/// unpaused while a pause is claimed, and the claim ends. Else the clock is left alone, and the claim
/// stays as it is. Whether the tree is paused is remembered in any case.
pub proof fn law_each_edge_is_answered(bridge: PauseBridge, clock_paused: bool, tree_paused: bool)
    ensures
        ({
            let action = pause_action(bridge, clock_paused, tree_paused);
            let next = bridge_after(bridge, clock_paused, tree_paused);
            let down = !bridge.last_tree_paused && tree_paused;
            let up = bridge.last_tree_paused && !tree_paused;
            &&& action == PauseAction::Pause <==> down && !clock_paused
            &&& action == PauseAction::Unpause <==> up && bridge.paused_by_mirror
            &&& next.last_tree_paused == tree_paused
            &&& down && !clock_paused ==> next.paused_by_mirror
            &&& up ==> !next.paused_by_mirror
            &&& !up && !(down && !clock_paused) ==> next.paused_by_mirror
                == bridge.paused_by_mirror
        }),
        !fresh_bridge().last_tree_paused,
        !fresh_bridge().paused_by_mirror,
{
}

} // verus!
