//! How an application is built.

use vstd::prelude::*;

use crate::app::bevy_app::BevyApp;
use crate::app::registry::AppRegistry;
use crate::scene_tree::plugin::GodotSceneTreePlugin;

verus! {

/// Whose builder an application is built with.
#[derive(Clone, Copy, Debug, PartialEq, Eq, Structural)]
pub enum Builder {
    /// That of the node itself.
    Own,
    /// The registered one.
    Registered,
}

/// One step of building an application.
#[derive(Clone, Copy, Debug, PartialEq, Eq, Structural)]
pub enum BuildStep {
    /// Keep the callbacks of the node coming while the tree is paused. What a pause stops is up to the
    /// schedules.
    ProcessAlways,
    /// Make an empty application and add the core plugins to it.
    AddCorePlugins,
    AddSceneTreePlugin(GodotSceneTreePlugin),
    RunBuilder(Builder),
    /// Say which plugins are there.
    LogPlugins,
    /// Set up the helper nodes for the messages that are in use by now.
    RegisterWatchers,
    /// Bring the plugins to their end.
    SettlePlugins,
    /// Hand the application over to the node.
    TakeOver,
}

impl<A, F> BevyApp<A, F> {
    /// Whose builder the node is initialized with: its own, else the registered one.
    pub open spec fn builder(self, registry: AppRegistry<F>) -> Option<Builder> {
        if self.instance_init_func is Some {
            Some(Builder::Own)
        } else if registry.init_func is Some {
            Some(Builder::Registered)
        } else {
            None
        }
    }

    /// The steps that build an application.
    pub open spec fn build_plan(self, registry: AppRegistry<F>, is_development: bool) -> Seq<
        BuildStep,
    > {
        let plugin = GodotSceneTreePlugin {
            auto_despawn_children: registry.config_in_force().scene_tree_auto_despawn_children,
        };
        let plugins = seq![
            BuildStep::ProcessAlways,
            BuildStep::AddCorePlugins,
            BuildStep::AddSceneTreePlugin(plugin),
        ];
        let built = match self.builder(registry) {
            Some(builder) => seq![BuildStep::RunBuilder(builder)],
            None => seq![],
        };
        let logged = if is_development {
            seq![BuildStep::LogPlugins]
        } else {
            seq![]
        };
        plugins + built + logged + seq![
            BuildStep::RegisterWatchers,
            BuildStep::SettlePlugins,
            BuildStep::TakeOver,
        ]
    }

    /// The node while a new application is built.
    pub open spec fn after_do_initialize(self) -> BevyApp<A, F> {
        BevyApp { started: false, prefix_done_this_frame: false, ..self }
    }

    /// Begin to build a new application: its startup is still to run, and the frame starts over. The
    /// steps that are handed back build it, in this order.
    pub fn do_initialize(&mut self, registry: &AppRegistry<F>, is_development: bool) -> (r: Vec<
        BuildStep,
    >)
        ensures
            r@ == old(self).build_plan(*registry, is_development),
            *final(self) == old(self).after_do_initialize(),
    {
        self.started = false;
        self.prefix_done_this_frame = false;
        let mut r: Vec<BuildStep> = Vec::new();
        r.push(BuildStep::ProcessAlways);
        r.push(BuildStep::AddCorePlugins);
        r.push(BuildStep::AddSceneTreePlugin(registry.scene_tree_plugin()));
        if self.instance_init_func.is_some() {
            r.push(BuildStep::RunBuilder(Builder::Own));
        } else if registry.has_init_func() {
            r.push(BuildStep::RunBuilder(Builder::Registered));
        }
        if is_development {
            r.push(BuildStep::LogPlugins);
        }
        r.push(BuildStep::RegisterWatchers);
        r.push(BuildStep::SettlePlugins);
        r.push(BuildStep::TakeOver);
        assert(r@ =~= old(self).build_plan(*registry, is_development));
        r
    }
}

/// The builder runs once, if there is one: after both plugins were added and before the helper nodes
/// are set up, so that these are about the messages that it brought into use. Then the plugins are
/// brought to their end, and last the application is taken over.
pub proof fn law_builder_runs_between_plugins_and_watchers<A, F>(
    node: BevyApp<A, F>,
    registry: AppRegistry<F>,
    is_development: bool,
)
    ensures
        ({
            let plan = node.build_plan(registry, is_development);
            let n = plan.len() as int;
            &&& forall|i: int|
                0 <= i < n ==> ((#[trigger] plan[i]) is RunBuilder <==> node.can_initialize(
                    registry,
                ) && i == 3)
            &&& forall|i: int| 0 <= i < n ==> ((#[trigger] plan[i]) is AddCorePlugins <==> i == 1)
            &&& forall|i: int|
                0 <= i < n ==> ((#[trigger] plan[i]) is AddSceneTreePlugin <==> i == 2)
            &&& n >= 6
            &&& node.can_initialize(registry) ==> n - 3 > 3
            &&& forall|i: int|
                0 <= i < n ==> ((#[trigger] plan[i]) is RegisterWatchers <==> i == n - 3)
            &&& forall|i: int|
                0 <= i < n ==> ((#[trigger] plan[i]) is SettlePlugins <==> i == n - 2)
            &&& forall|i: int| 0 <= i < n ==> ((#[trigger] plan[i]) is TakeOver <==> i == n - 1)
        }),
{
}

/// What an application is built with. The scene-tree plugin despawns children with their parent as the
/// registered configuration says, or does so if none is registered. The builder is the node's own if
/// it has one, else the registered one. The plugins are listed in development, and only then. The node
/// keeps all it has but for what tells where it stands in the frame, which starts over.
pub proof fn law_application_is_built_as_configured<A, F>(
    node: BevyApp<A, F>,
    registry: AppRegistry<F>,
    is_development: bool,
)
    ensures
        ({
            let plan = node.build_plan(registry, is_development);
            let n = plan.len() as int;
            let has_builder = node.instance_init_func is Some || registry.init_func is Some;
            &&& n == 6 + (if has_builder {
                1int
            } else {
                0
            }) + (if is_development {
                1int
            } else {
                0
            })
            &&& plan[0] is ProcessAlways
            &&& plan[1] is AddCorePlugins
            &&& plan[2] matches BuildStep::AddSceneTreePlugin(plugin)
            &&& registry.config is Some ==> plugin.auto_despawn_children
                == registry.config->Some_0.scene_tree_auto_despawn_children
            &&& registry.config is None ==> plugin.auto_despawn_children
            &&& node.instance_init_func is Some ==> plan[3] == BuildStep::RunBuilder(Builder::Own)
            &&& node.instance_init_func is None && registry.init_func is Some ==> plan[3]
                == BuildStep::RunBuilder(Builder::Registered)
            &&& is_development ==> plan[n - 4] is LogPlugins
            &&& !is_development ==> forall|i: int|
                0 <= i < n ==> !((#[trigger] plan[i]) is LogPlugins)
            &&& plan[n - 3] is RegisterWatchers
            &&& plan[n - 2] is SettlePlugins
            &&& plan[n - 1] is TakeOver
        }),
        node.can_initialize(registry) <==> node.instance_init_func is Some || registry.init_func
            is Some,
        ({
            let after = node.after_do_initialize();
            &&& !after.started
            &&& !after.prefix_done_this_frame
            &&& after.app == node.app
            &&& after.instance_init_func == node.instance_init_func
            &&& after.physics_steps_this_frame == node.physics_steps_this_frame
        }),
{
}

} // verus!
