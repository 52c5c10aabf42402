//! What a frame runs, over all its callbacks.

use vstd::prelude::*;

use crate::app::bevy_app::{BevyApp, Preamble};

verus! {

/// A part of the schedule.
pub enum Phase {
    /// Once in the life of an application.
    Startup,
    /// Once per frame, first.
    Prefix,
    /// Once per physics callback.
    FixedStep,
    /// Once per frame, last.
    Suffix,
}

/// What decides the parts that a callback runs.
#[verifier::ext_equal]
pub struct FrameState {
    pub started: bool,
    pub prefix_done: bool,
    pub steps: nat,
}

/// What of a node decides the parts that its callbacks run.
pub open spec fn frame_state<A, F>(node: BevyApp<A, F>) -> FrameState {
    FrameState {
        started: node.started,
        prefix_done: node.prefix_done_this_frame,
        steps: node.physics_steps_this_frame as nat,
    }
}

/// What a callback runs before its own part.
pub open spec fn preamble_of(s: FrameState) -> Preamble {
    Preamble { need_startup: !s.started, need_prefix: !s.prefix_done }
}

/// The parts of a preamble, in order.
pub open spec fn preamble_phases(preamble: Preamble) -> Seq<Phase> {
    let startup: Seq<Phase> = if preamble.need_startup {
        seq![Phase::Startup]
    } else {
        seq![]
    };
    let prefix: Seq<Phase> = if preamble.need_prefix {
        seq![Phase::Prefix]
    } else {
        seq![]
    };
    startup + prefix
}

/// The state after a physics callback that did not panic.
pub open spec fn after_physics(s: FrameState) -> FrameState {
    FrameState { started: true, prefix_done: true, steps: s.steps + 1 }
}

/// The state after the callback that ends a frame.
pub open spec fn after_process(s: FrameState) -> FrameState {
    FrameState { started: true, prefix_done: false, steps: 0 }
}

/// The callbacks of a node move its state as stated here: a physics callback that does not panic by
/// one step, the callback that ends a frame to the start of the next, whether or not it panics.
pub proof fn law_callbacks_move_the_state<A, F>(node: BevyApp<A, F>, panicked: bool)
    requires
        node.physics_steps_this_frame < u32::MAX,
    ensures
        node.preamble() == preamble_of(frame_state(node)),
        frame_state(node.after_begin_physics().after_end_physics(false)) == after_physics(
            frame_state(node),
        ),
        frame_state(node.after_end_process(panicked)) == after_process(frame_state(node)),
{
}

/// A new application starts from the beginning, whatever its predecessor had done: its first
/// callback runs the startup schedules and the first part of the frame.
pub proof fn law_new_application_starts_fresh<A, F>(node: BevyApp<A, F>, app: A)
    ensures
        (BevyApp { app: Some(app), ..node.after_do_initialize() }).preamble() == (Preamble {
            need_startup: true,
            need_prefix: true,
        }),
{
}

/// A callback that panics ends the application, and only a new initialization brings one back: no
/// later callback does.
pub proof fn law_panic_ends_the_application<A, F>(node: BevyApp<A, F>, later: bool)
    ensures
        node.after_end_process(true).app is None,
        node.after_begin_physics().after_end_physics(true).app is None,
        node.app is None ==> {
            &&& node.after_end_process(later).app is None
            &&& node.after_begin_physics().after_end_physics(later).app is None
        },
{
}

/// The state after `n` physics callbacks.
pub open spec fn after_steps(s: FrameState, n: nat) -> FrameState
    decreases n,
{
    if n == 0 {
        s
    } else {
        after_physics(after_steps(s, (n - 1) as nat))
    }
}

/// What `n` physics callbacks run.
pub open spec fn steps_phases(s: FrameState, n: nat) -> Seq<Phase>
    decreases n,
{
    if n == 0 {
        seq![]
    } else {
        let before = after_steps(s, (n - 1) as nat);
        steps_phases(s, (n - 1) as nat) + preamble_phases(preamble_of(before))
            + seq![Phase::FixedStep]
    }
}

/// What a frame with `n` physics callbacks runs.
pub open spec fn frame_phases(s: FrameState, n: nat) -> Seq<Phase> {
    steps_phases(s, n) + preamble_phases(preamble_of(after_steps(s, n))) + seq![Phase::Suffix]
}

/// The state after a frame with `n` physics callbacks.
pub open spec fn after_frame(s: FrameState, n: nat) -> FrameState {
    after_process(after_steps(s, n))
}

proof fn lemma_steps(s: FrameState, n: nat)
    requires
        !s.prefix_done,
    ensures
        after_steps(s, n) == (FrameState {
            started: s.started || n > 0,
            prefix_done: n > 0,
            steps: s.steps + n,
        }),
        steps_phases(s, n) == (if n == 0 {
            seq![]
        } else {
            preamble_phases(preamble_of(s)) + Seq::new(n, |i: int| Phase::FixedStep)
        }),
    decreases n,
{
    if n > 0 {
        let m = (n - 1) as nat;
        lemma_steps(s, m);
        let fixed = Seq::new(n, |i: int| Phase::FixedStep);
        if m == 0 {
            assert(steps_phases(s, n) =~= preamble_phases(preamble_of(s)) + fixed);
        } else {
            assert(preamble_phases(preamble_of(after_steps(s, m))) =~= seq![]);
            assert(steps_phases(s, n) =~= preamble_phases(preamble_of(s)) + fixed);
        }
    }
}

/// A frame runs, in this order: the startup schedules, if they have not run; the first part, once;
/// one fixed step per physics callback; the last part, once. It reports as many steps as it had
/// physics callbacks, and leaves the next frame with all parts but the startup to run.
pub proof fn law_frame_runs_in_order(s: FrameState, n: nat)
    requires
        !s.prefix_done,
        s.steps == 0,
    ensures
        frame_phases(s, n) == preamble_phases(
            Preamble { need_startup: !s.started, need_prefix: true },
        ) + Seq::new(n, |i: int| Phase::FixedStep) + seq![Phase::Suffix],
        after_steps(s, n).steps == n,
        after_frame(s, n) == (FrameState { started: true, prefix_done: false, steps: 0 }),
{
    lemma_steps(s, n);
    let whole = preamble_phases(Preamble { need_startup: !s.started, need_prefix: true })
        + Seq::new(n, |i: int| Phase::FixedStep) + seq![Phase::Suffix];
    if n == 0 {
        assert(frame_phases(s, n) =~= whole);
    } else {
        assert(preamble_phases(preamble_of(after_steps(s, n))) =~= seq![]);
        assert(frame_phases(s, n) =~= whole);
    }
}

/// The callback that ends a frame runs the first part itself just when the frame had no physics
/// callback.
pub proof fn law_fallback_prefix_means_no_step(s: FrameState, n: nat)
    requires
        !s.prefix_done,
    ensures
        preamble_of(after_steps(s, n)).need_prefix <==> n == 0,
{
    lemma_steps(s, n);
}

/// What frames with these numbers of physics callbacks run, one after the other.
pub open spec fn frames_phases(s: FrameState, counts: Seq<nat>) -> Seq<Phase>
    decreases counts.len(),
{
    if counts.len() == 0 {
        seq![]
    } else {
        frame_phases(s, counts[0]) + frames_phases(after_frame(s, counts[0]), counts.drop_first())
    }
}

/// The startup schedules run once over any number of frames, before everything else, and never
/// again.
pub proof fn law_startup_runs_once(s: FrameState, counts: Seq<nat>)
    requires
        !s.prefix_done,
        s.steps == 0,
        counts.len() > 0,
    ensures
        forall|i: int|
            0 <= i < frames_phases(s, counts).len() ==> ((
            #[trigger] frames_phases(s, counts)[i]) is Startup <==> i == 0 && !s.started),
        frames_phases(s, counts).len() > 0,
    decreases counts.len(),
{
    let n = counts[0];
    law_frame_runs_in_order(s, n);
    let first = frame_phases(s, n);
    let rest = frames_phases(after_frame(s, n), counts.drop_first());
    if counts.len() > 1 {
        law_startup_runs_once(after_frame(s, n), counts.drop_first());
    }
    assert forall|i: int| 0 <= i < frames_phases(s, counts).len() implies ((
    #[trigger] frames_phases(s, counts)[i]) is Startup <==> i == 0 && !s.started) by {
        if i >= first.len() {
            assert(frames_phases(s, counts)[i] == rest[i - first.len()]);
        } else {
            assert(frames_phases(s, counts)[i] == first[i]);
        }
    }
}

/// What a callback runs before its own part goes by two things: the startup, if it has not run since
/// the application was built, and the first part of the frame, if it has not run in this frame.
pub proof fn law_preamble_goes_by_what_has_run<A, F>(node: BevyApp<A, F>)
    ensures
        node.preamble().need_startup <==> !node.started,
        node.preamble().need_prefix <==> !node.prefix_done_this_frame,
{
}

/// What the callback that ends a frame leaves behind: the startup has run, the next frame is to begin
/// anew with no step counted, and the application is kept unless it panicked.
pub proof fn law_end_of_a_frame_keeps_the_application<A, F>(node: BevyApp<A, F>, panicked: bool)
    ensures
        ({
            let after = node.after_end_process(panicked);
            &&& after.started
            &&& !after.prefix_done_this_frame
            &&& after.physics_steps_this_frame == 0
            &&& after.instance_init_func == node.instance_init_func
            &&& !panicked ==> after.app == node.app
            &&& panicked ==> after.app is None
        }),
{
}

/// What a physics callback leaves behind: one more step is counted in any case. If it did not panic,
/// the startup and the first part of the frame have run, and the application is kept; if it did, the
/// application is dropped, and nothing counts as run that had not.
pub proof fn law_physics_step_is_counted<A, F>(node: BevyApp<A, F>, panicked: bool)
    requires
        node.physics_steps_this_frame < u32::MAX,
    ensures
        ({
            let within = node.after_begin_physics();
            let after = within.after_end_physics(panicked);
            &&& within.app == node.app
            &&& within.started == node.started
            &&& within.prefix_done_this_frame == node.prefix_done_this_frame
            &&& within.physics_steps_this_frame == node.physics_steps_this_frame + 1
            &&& after.physics_steps_this_frame == node.physics_steps_this_frame + 1
            &&& after.instance_init_func == node.instance_init_func
            &&& !panicked ==> after.app == node.app && after.started && after.prefix_done_this_frame
            &&& panicked ==> after.app is None && after.started == node.started
                && after.prefix_done_this_frame == node.prefix_done_this_frame
        }),
{
}

} // verus!
