//! How the mirror is brought up to the tree as it stands when the application starts.

use vstd::prelude::*;

use crate::scene_tree::message::{
    describes, initial_scene_tree_messages, InitialTreeAnalysis, SceneTreeMessage,
};
use crate::scene_tree::tree::SceneNode;

verus! {

/// What the startup waits for.
#[derive(Clone, Copy, Debug, PartialEq, Eq, Structural)]
pub enum StartupStage {
    /// The tree as it stands.
    Snapshot,
    /// That the messages of the snapshot were processed.
    Mirror,
    /// Nothing any more.
    Over,
}

/// What the host tells the startup.
pub enum StartupEvent {
    /// The tree as it stands, and what the optimized watcher makes of it where it is there.
    Snapshot { analysis: Option<InitialTreeAnalysis>, root: SceneNode },
    /// The messages were processed.
    Mirrored,
}

/// What the startup asks of the host.
pub enum StartupAction {
    /// Process these messages, as a batch.
    Mirror(Vec<SceneTreeMessage>),
    /// Drop what the watcher has queued until now. It is about nodes of the snapshot, or about nodes
    /// that are gone; what it queues from now on is not dropped.
    DropBacklog,
}

/// Whether an event is what the startup waits for.
pub open spec fn startup_awaited(stage: StartupStage, event: StartupEvent) -> bool {
    match stage {
        StartupStage::Snapshot => event matches StartupEvent::Snapshot { analysis, .. } && (analysis
            matches Some(a) ==> a.wf()),
        StartupStage::Mirror => event is Mirrored,
        StartupStage::Over => false,
    }
}

/// What a step of the startup comes to.
pub open spec fn startup_stepped(
    stage: StartupStage,
    event: StartupEvent,
    next: StartupStage,
    action: StartupAction,
) -> bool {
    match (stage, event) {
        (StartupStage::Snapshot, StartupEvent::Snapshot { analysis, root }) => {
            &&& next is Mirror
            &&& action matches StartupAction::Mirror(messages) && describes(
                analysis,
                root,
                messages@,
            )
        },
        (StartupStage::Mirror, StartupEvent::Mirrored) => next is Over && action is DropBacklog,
        _ => false,
    }
}

/// One step of the startup: first the messages of the snapshot are processed, then the backlog is
/// dropped.
pub fn initialize_scene_tree(stage: &mut StartupStage, event: StartupEvent) -> (action:
    StartupAction)
    requires
        startup_awaited(*old(stage), event),
    ensures
        startup_stepped(*old(stage), event, *final(stage), action),
{
    match event {
        StartupEvent::Snapshot { analysis, root } => {
            *stage = StartupStage::Mirror;
            StartupAction::Mirror(initial_scene_tree_messages(analysis.as_ref(), &root))
        },
        StartupEvent::Mirrored => {
            *stage = StartupStage::Over;
            StartupAction::DropBacklog
        },
    }
}

/// The backlog is dropped after the messages of the snapshot were processed, never before, and each of
/// the two happens once: a startup that is told what it waits for asks for the messages to be
/// processed, then for the backlog to be dropped, and is over.
pub proof fn law_backlog_is_dropped_after_the_snapshot(
    analysis: Option<InitialTreeAnalysis>,
    root: SceneNode,
    first: (StartupStage, StartupAction),
    event: StartupEvent,
    second: (StartupStage, StartupAction),
    late: StartupEvent,
)
    requires
        startup_stepped(
            StartupStage::Snapshot,
            StartupEvent::Snapshot { analysis, root },
            first.0,
            first.1,
        ),
        startup_awaited(first.0, event),
        startup_stepped(first.0, event, second.0, second.1),
    ensures
        first.1 matches StartupAction::Mirror(messages) && describes(analysis, root, messages@),
        event is Mirrored,
        second.1 is DropBacklog,
        !startup_awaited(second.0, late),
{
}

} // verus!
