//! The application builder that was registered, and its configuration.

use vstd::prelude::*;

use crate::scene_tree::plugin::GodotSceneTreePlugin;

verus! {

/// Configuration of the application.
#[derive(Clone, Copy, Debug, PartialEq, Eq, Structural)]
pub struct BevyAppConfig {
    /// Whether despawning a parent entity also despawns its children.
    pub scene_tree_auto_despawn_children: bool,
}

/// The configuration that holds where none was registered.
pub open spec fn default_config() -> BevyAppConfig {
    BevyAppConfig { scene_tree_auto_despawn_children: true }
}

impl Default for BevyAppConfig {
    fn default() -> (r: BevyAppConfig)
        ensures
            r == default_config(),
    {
        BevyAppConfig { scene_tree_auto_despawn_children: true }
    }
}

/// What was registered: a configuration and a builder. Each is set once and kept.
#[derive(Debug)]
pub struct AppRegistry<F> {
    pub config: Option<BevyAppConfig>,
    pub init_func: Option<F>,
}

/// What is registered after one more registration: what was there before stays.
pub open spec fn registered<F>(
    before: AppRegistry<F>,
    config: BevyAppConfig,
    init_fn: F,
) -> AppRegistry<F> {
    AppRegistry {
        config: match before.config {
            Some(kept) => Some(kept),
            None => Some(config),
        },
        init_func: match before.init_func {
            Some(kept) => Some(kept),
            None => Some(init_fn),
        },
    }
}

impl<F> AppRegistry<F> {
    /// Nothing is registered.
    pub fn new() -> (r: AppRegistry<F>)
        ensures
            r.config is None,
            r.init_func is None,
    {
        AppRegistry { config: None, init_func: None }
    }

    /// Whether a builder is registered.
    pub fn has_init_func(&self) -> (r: bool)
        ensures
            r == self.init_func is Some,
    {
        self.init_func.is_some()
    }

    /// The configuration that holds.
    pub open spec fn config_in_force(self) -> BevyAppConfig {
        match self.config {
            Some(config) => config,
            None => default_config(),
        }
    }

    /// The scene-tree plugin as the configuration that holds wants it.
    pub fn scene_tree_plugin(&self) -> (r: GodotSceneTreePlugin)
        ensures
            r.auto_despawn_children == self.config_in_force().scene_tree_auto_despawn_children,
    {
        let config = match self.config {
            Some(config) => config,
            None => BevyAppConfig { scene_tree_auto_despawn_children: true },
        };
        GodotSceneTreePlugin { auto_despawn_children: config.scene_tree_auto_despawn_children }
    }
}

/// Register a builder with the default configuration.
pub fn init<F>(registry: &mut AppRegistry<F>, init_fn: F)
    ensures
        *final(registry) == registered(*old(registry), default_config(), init_fn),
{
    init_with_config(registry, BevyAppConfig::default(), init_fn);
}

/// Register a builder and its configuration. What is registered already stays.
pub fn init_with_config<F>(registry: &mut AppRegistry<F>, config: BevyAppConfig, init_fn: F)
    ensures
        *final(registry) == registered(*old(registry), config, init_fn),
{
    if registry.config.is_none() {
        registry.config = Some(config);
    }
    if registry.init_func.is_none() {
        registry.init_func = Some(init_fn);
    }
}

/// What is registered after a series of registrations.
pub open spec fn registered_all<F>(
    before: AppRegistry<F>,
    calls: Seq<(BevyAppConfig, F)>,
) -> AppRegistry<F>
    decreases calls.len(),
{
    if calls.len() == 0 {
        before
    } else {
        registered(registered_all(before, calls.drop_last()), calls.last().0, calls.last().1)
    }
}

/// The first registration wins, with its configuration and its builder; later ones change nothing.
pub proof fn law_first_registration_wins<F>(
    before: AppRegistry<F>,
    calls: Seq<(BevyAppConfig, F)>,
)
    requires
        before.config is None,
        before.init_func is None,
        calls.len() > 0,
    ensures
        registered_all(before, calls).config == Some(calls[0].0),
        registered_all(before, calls).init_func == Some(calls[0].1),
    decreases calls.len(),
{
    let earlier = calls.drop_last();
    if earlier.len() > 0 {
        law_first_registration_wins(before, earlier);
        assert(earlier[0] == calls[0]);
    } else {
        assert(registered_all(before, earlier) == before);
    }
}

/// A registration fills what is empty and leaves what is there, the configuration and the builder each
/// for itself. Without a configuration children are despawned with their parent, as with the default.
pub proof fn law_registration_fills_what_is_empty<F>(
    before: AppRegistry<F>,
    config: BevyAppConfig,
    init_fn: F,
)
    ensures
        before.config is None ==> registered(before, config, init_fn).config == Some(config),
        before.config is Some ==> registered(before, config, init_fn).config == before.config,
        before.init_func is None ==> registered(before, config, init_fn).init_func == Some(init_fn),
        before.init_func is Some ==> registered(before, config, init_fn).init_func
            == before.init_func,
        default_config().scene_tree_auto_despawn_children,
        before.config is Some ==> before.config_in_force() == before.config->Some_0,
        before.config is None ==> before.config_in_force().scene_tree_auto_despawn_children,
{
}

} // verus!
