//! The application node's own state, and what each of its callbacks does with it.

use vstd::prelude::*;
use vstd::string::StringExecFns;

use crate::app::construction::BuildStep;
use crate::app::registry::AppRegistry;
use crate::app::watchers::{present, watchers_to_remove, Watcher, WatchersInTree};

verus! {

/// The application node: the application it drives, if there is one, and where it stands in the
/// frame.
#[derive(Debug)]
pub struct BevyApp<A, F> {
    pub app: Option<A>,
    /// A builder of this node's own. It goes before the registered one.
    pub instance_init_func: Option<F>,
    /// Whether the startup schedules have run.
    pub started: bool,
    /// Whether the first part of the frame has run. Up from the first physics callback of a frame
    /// to the end of the frame.
    pub prefix_done_this_frame: bool,
    /// How many physics callbacks the frame has had.
    pub physics_steps_this_frame: u32,
}

/// Which parts of the schedule a callback runs before its own.
#[derive(Clone, Copy, Debug, PartialEq, Eq, Structural)]
pub struct Preamble {
    pub need_startup: bool,
    pub need_prefix: bool,
}

/// What the end of a frame brings.
#[derive(Clone, Copy, Debug, PartialEq, Eq, Structural)]
pub struct FrameEnd {
    /// How many physics callbacks the frame had.
    pub physics_steps: u32,
}

/// What is done when the node is ready.
#[derive(Clone, Copy, Debug, PartialEq, Eq, Structural)]
pub struct ReadyPlan {
    pub register_bulk_operations: bool,
    pub initialize: bool,
}

/// What is done to start over: helper nodes that are removed, in this order, and then the steps that
/// build a new application.
#[derive(Debug)]
pub struct Restart {
    pub removed: Vec<Watcher>,
    pub steps: Vec<BuildStep>,
}

/// How far the plugins of an application have come.
#[derive(Clone, Copy, Debug, PartialEq, Eq, Structural)]
pub enum PluginsPhase {
    Adding,
    Ready,
    Finished,
    Cleaned,
}

/// What is done next about the plugins of an application.
#[derive(Clone, Copy, Debug, PartialEq, Eq, Structural)]
pub enum PluginsStep {
    /// Nothing, they are done with.
    Nothing,
    /// Let the task pools work, then look again.
    Tick,
    /// Finish and clean up, then no more.
    FinishAndCleanup,
}

/// Why an event is not sent.
#[derive(Clone, Copy, Debug, PartialEq, Eq, Structural)]
pub enum SendRefusal {
    /// The node drives no application.
    NoApp,
    /// The application has no event channel.
    NoChannel,
}

impl<A, F> BevyApp<A, F> {
    /// A node that drives nothing yet.
    pub fn new() -> (r: BevyApp<A, F>)
        ensures
            r.app is None,
            r.instance_init_func is None,
            !r.started,
            !r.prefix_done_this_frame,
            r.physics_steps_this_frame == 0,
    {
        BevyApp {
            app: None,
            instance_init_func: None,
            started: false,
            prefix_done_this_frame: false,
            physics_steps_this_frame: 0,
        }
    }

    /// The application, if there is one.
    pub fn get_app(&self) -> (r: Option<&A>)
        ensures
            match r {
                Some(app) => self.app == Some(*app),
                None => self.app is None,
            },
    {
        self.app.as_ref()
    }

    /// The application, if there is one, to change it.
    pub fn get_app_mut(&mut self) -> (r: Option<&mut A>)
        ensures
            match r {
                Some(app) => old(self).app == Some(*app) && *final(self) == (BevyApp {
                    app: Some(*final(app)),
                    ..*old(self)
                }),
                None => old(self).app is None && *final(self) == *old(self),
            },
    {
        self.app.as_mut()
    }

    /// Give this node a builder of its own.
    pub fn set_instance_init_func(&mut self, func: F)
        ensures
            *final(self) == (BevyApp { instance_init_func: Some(func), ..*old(self) }),
    {
        self.instance_init_func = Some(func);
    }

    /// Whether there is a builder to initialize with.
    pub open spec fn can_initialize(self, registry: AppRegistry<F>) -> bool {
        self.instance_init_func is Some || registry.init_func is Some
    }

    /// The builder to initialize with: the node's own, else the registered one.
    pub fn init_func<'a>(&'a self, registry: &'a AppRegistry<F>) -> (r: Option<&'a F>)
        ensures
            match r {
                Some(func) => if self.instance_init_func is Some {
                    self.instance_init_func == Some(*func)
                } else {
                    registry.init_func == Some(*func)
                },
                None => !self.can_initialize(*registry),
            },
    {
        match &self.instance_init_func {
            Some(func) => Some(func),
            None => registry.init_func.as_ref(),
        }
    }

    /// Drop the application. The helper nodes that are there are to be removed and freed, in this
    /// order.
    pub fn teardown(&mut self, in_tree: WatchersInTree) -> (r: Vec<Watcher>)
        ensures
            *final(self) == (BevyApp { app: None, ..*old(self) }),
            r@ == present(in_tree),
    {
        self.app = None;
        watchers_to_remove(in_tree)
    }

    /// Start over on a node that is in the tree already. Without a builder nothing happens; with one
    /// the application is dropped, and what is handed back is to be done: first the helper nodes are
    /// removed, then a new application is built.
    pub fn initialize(
        &mut self,
        registry: &AppRegistry<F>,
        in_tree: WatchersInTree,
        is_development: bool,
    ) -> (r: Option<Restart>)
        ensures
            r is Some <==> old(self).can_initialize(*registry),
            match r {
                Some(restart) => {
                    &&& restart.removed@ == present(in_tree)
                    &&& restart.steps@ == old(self).build_plan(*registry, is_development)
                    &&& *final(self) == (BevyApp {
                        app: None,
                        ..*old(self)
                    }).after_do_initialize()
                },
                None => *final(self) == *old(self),
            },
    {
        let has_init = self.instance_init_func.is_some() || registry.has_init_func();
        if !has_init {
            return None;
        }
        let removed = self.teardown(in_tree);
        let steps = self.do_initialize(registry, is_development);
        Some(Restart { removed, steps })
    }

    /// Take over the application that was built. It must have no secondary application beside its
    /// main one: nothing would ever update that.
    pub fn finish_initialize(&mut self, app: A, sub_apps: usize)
        requires
            sub_apps == 0,
        ensures
            *final(self) == (BevyApp { app: Some(app), ..*old(self) }),
    {
        self.app = Some(app);
    }

    /// What is done when the node is ready. In the editor nothing is. The helper for batched
    /// operations is set up in development builds, whether or not there is a builder.
    pub fn ready(&self, registry: &AppRegistry<F>, is_editor: bool, is_development: bool) -> (r:
        ReadyPlan)
        ensures
            r.register_bulk_operations == (!is_editor && is_development),
            r.initialize == (!is_editor && self.can_initialize(*registry)),
    {
        if is_editor {
            return ReadyPlan { register_bulk_operations: false, initialize: false };
        }
        ReadyPlan {
            register_bulk_operations: is_development,
            initialize: self.instance_init_func.is_some() || registry.has_init_func(),
        }
    }

    /// What a callback runs before its own part.
    pub open spec fn preamble(self) -> Preamble {
        Preamble { need_startup: !self.started, need_prefix: !self.prefix_done_this_frame }
    }

    /// The node after the callback that ends a frame.
    pub open spec fn after_end_process(self, panicked: bool) -> BevyApp<A, F> {
        BevyApp {
            app: if panicked {
                None
            } else {
                self.app
            },
            instance_init_func: self.instance_init_func,
            started: true,
            prefix_done_this_frame: false,
            physics_steps_this_frame: 0,
        }
    }

    /// The node within a physics callback.
    pub open spec fn after_begin_physics(self) -> BevyApp<A, F> {
        BevyApp {
            physics_steps_this_frame: (self.physics_steps_this_frame + 1) as u32,
            ..self
        }
    }

    /// The node after a physics callback, from what it was within.
    pub open spec fn after_end_physics(self, panicked: bool) -> BevyApp<A, F> {
        if panicked {
            BevyApp { app: None, ..self }
        } else {
            BevyApp { started: true, prefix_done_this_frame: true, ..self }
        }
    }

    /// Begin the callback that ends a frame. In the editor it does nothing.
    pub fn begin_process(&self, is_editor: bool) -> (r: Option<Preamble>)
        ensures
            r == (if is_editor {
                None
            } else {
                Some(self.preamble())
            }),
    {
        if is_editor {
            return None;
        }
        Some(
            Preamble { need_startup: !self.started, need_prefix: !self.prefix_done_this_frame },
        )
    }

    /// End the callback that ends a frame. That holds without an application, too, and if it
    /// panicked; one that panicked is dropped.
    pub fn end_process(&mut self, panicked: bool) -> (r: FrameEnd)
        ensures
            r.physics_steps == old(self).physics_steps_this_frame,
            *final(self) == old(self).after_end_process(panicked),
    {
        self.started = true;
        self.prefix_done_this_frame = false;
        let steps: u32 = self.physics_steps_this_frame;
        self.physics_steps_this_frame = 0;
        if panicked {
            self.app = None;
        }
        FrameEnd { physics_steps: steps }
    }

    /// Begin a physics callback. In the editor it does nothing.
    pub fn begin_physics_process(&mut self, is_editor: bool) -> (r: Option<Preamble>)
        requires
            !is_editor ==> old(self).physics_steps_this_frame < u32::MAX,
        ensures
            r == (if is_editor {
                None
            } else {
                Some(old(self).preamble())
            }),
            *final(self) == (if is_editor {
                *old(self)
            } else {
                old(self).after_begin_physics()
            }),
    {
        if is_editor {
            return None;
        }
        self.physics_steps_this_frame = self.physics_steps_this_frame + 1;
        Some(
            Preamble { need_startup: !self.started, need_prefix: !self.prefix_done_this_frame },
        )
    }

    /// End a physics callback. An application that panicked is dropped, and nothing of the callback
    /// counts as done.
    pub fn end_physics_process(&mut self, panicked: bool)
        ensures
            *final(self) == old(self).after_end_physics(panicked),
    {
        if panicked {
            self.app = None;
            return;
        }
        self.started = true;
        self.prefix_done_this_frame = true;
    }

    /// Whether an event can be sent into the application, given whether that has an event channel.
    pub fn send_event(&self, has_channel: bool) -> (r: Result<(), SendRefusal>)
        ensures
            r is Ok <==> self.app is Some && has_channel,
            r == Err::<(), SendRefusal>(SendRefusal::NoApp) <==> self.app is None,
            r == Err::<(), SendRefusal>(SendRefusal::NoChannel) <==> self.app is Some
                && !has_channel,
    {
        if self.app.is_none() {
            return Err(SendRefusal::NoApp);
        }
        if !has_channel {
            return Err(SendRefusal::NoChannel);
        }
        Ok(())
    }
}

/// What is done next about the plugins of an application. `at_work` says that they were found
/// wanting before.
pub fn plugins_step(at_work: bool, phase: PluginsPhase) -> (r: PluginsStep)
    ensures
        r == (if phase is Adding {
            PluginsStep::Tick
        } else if phase is Cleaned && !at_work {
            PluginsStep::Nothing
        } else {
            PluginsStep::FinishAndCleanup
        }),
{
    match phase {
        PluginsPhase::Adding => PluginsStep::Tick,
        PluginsPhase::Cleaned => if at_work {
            PluginsStep::FinishAndCleanup
        } else {
            PluginsStep::Nothing
        },
        PluginsPhase::Ready => PluginsStep::FinishAndCleanup,
        PluginsPhase::Finished => PluginsStep::FinishAndCleanup,
    }
}

/// Which of the plugins an application has.
#[derive(Clone, Copy, Debug, PartialEq, Eq, Structural)]
pub struct PluginsAdded {
    pub transform_sync: bool,
    pub assets: bool,
    pub collisions: bool,
    pub input: bool,
    pub audio: bool,
    pub packed_scene: bool,
    pub debugger: bool,
}

/// How the presence of a plugin is written.
pub open spec fn on_text(added: bool) -> Seq<char> {
    if added {
        "on"@
    } else {
        "off"@
    }
}

fn on(added: bool) -> (r: &'static str)
    ensures
        r@ == on_text(added),
{
    if added {
        "on"
    } else {
        "off"
    }
}

/// The line that says at startup which plugins are there.
pub open spec fn diagnostics_text(added: PluginsAdded) -> Seq<char> {
    "[godot-bevy] plugins -- transform_sync:"@ + on_text(added.transform_sync) + " assets:"@
        + on_text(added.assets) + " collisions:"@ + on_text(added.collisions) + " input:"@
        + on_text(added.input) + " audio:"@ + on_text(added.audio) + " packed_scene:"@ + on_text(
        added.packed_scene,
    ) + " debugger:"@ + on_text(added.debugger)
        + ". Missing one you expected? Add it, or use GodotDefaultPlugins."@
}

/// The line that says at startup which plugins are there.
pub fn log_plugin_diagnostics(added: PluginsAdded) -> (r: String)
    ensures
        r@ == diagnostics_text(added),
{
    let mut r: String = "[godot-bevy] plugins -- transform_sync:".to_owned();
    r.append(on(added.transform_sync));
    r.append(" assets:");
    r.append(on(added.assets));
    r.append(" collisions:");
    r.append(on(added.collisions));
    r.append(" input:");
    r.append(on(added.input));
    r.append(" audio:");
    r.append(on(added.audio));
    r.append(" packed_scene:");
    r.append(on(added.packed_scene));
    r.append(" debugger:");
    r.append(on(added.debugger));
    r.append(". Missing one you expected? Add it, or use GodotDefaultPlugins.");
    r
}

/// The line that is logged names each plugin and says of each, by itself, whether it is there.
pub proof fn law_diagnostics_tell_each_plugin(added: PluginsAdded)
    ensures
        on_text(true) == "on"@,
        on_text(false) == "off"@,
        ({
            let said = |on: bool| if on {
                "on"@
            } else {
                "off"@
            };
            diagnostics_text(added) == "[godot-bevy] plugins -- transform_sync:"@ + said(
                added.transform_sync,
            ) + " assets:"@ + said(added.assets) + " collisions:"@ + said(added.collisions)
                + " input:"@ + said(added.input) + " audio:"@ + said(added.audio)
                + " packed_scene:"@ + said(added.packed_scene) + " debugger:"@ + said(
                added.debugger,
            ) + ". Missing one you expected? Add it, or use GodotDefaultPlugins."@
        }),
{
}

} // verus!
