//! Scenes that are to be instanced: where each comes from, and what is done with the instance.

use vstd::hash_map::StringHashMap;
use vstd::prelude::*;

use crate::ids::GodotNodeHandle;

verus! {

/// Instances the scenes that entities ask for.
#[derive(Clone, Copy, Debug, PartialEq, Eq, Structural)]
pub struct GodotPackedScenePlugin;

impl Default for GodotPackedScenePlugin {
    fn default() -> (r: GodotPackedScenePlugin)
        ensures
            r == GodotPackedScenePlugin,
    {
        GodotPackedScenePlugin
    }
}

/// Where a scene comes from: an asset by its handle, or a path to load.
#[derive(Debug)]
pub enum GodotSceneResource<H> {
    Handle(H),
    Path(String),
}

/// A signal of a node below the scene's root, and what it is connected to.
#[derive(Debug)]
pub struct SignalConnectionSpec<C> {
    pub node_path: String,
    pub signal_name: String,
    pub connections: C,
}

/// A scene that is to be instanced and put into the tree.
#[derive(Debug)]
pub struct GodotScene<H, C> {
    pub resource: GodotSceneResource<H>,
    pub parent: Option<GodotNodeHandle>,
    pub deferred_signal_connections: Vec<SignalConnectionSpec<C>>,
}

impl<H, C> GodotScene<H, C> {
    /// The scene of an asset, to be put below the root of the tree.
    pub fn from_handle(handle: H) -> (r: GodotScene<H, C>)
        ensures
            r.resource == GodotSceneResource::Handle(handle),
            r.parent is None,
            r.deferred_signal_connections@ == Seq::<SignalConnectionSpec<C>>::empty(),
    {
        GodotScene {
            resource: GodotSceneResource::Handle(handle),
            parent: None,
            deferred_signal_connections: Vec::new(),
        }
    }

    /// The scene at a path, to be put below the root of the tree.
    pub fn from_path(path: &str) -> (r: GodotScene<H, C>)
        ensures
            r.resource matches GodotSceneResource::Path(p) && p@ == path@,
            r.parent is None,
            r.deferred_signal_connections@ == Seq::<SignalConnectionSpec<C>>::empty(),
    {
        GodotScene {
            resource: GodotSceneResource::Path(path.to_owned()),
            parent: None,
            deferred_signal_connections: Vec::new(),
        }
    }

    /// The same scene, to be put below that node.
    pub fn with_parent(self, parent: GodotNodeHandle) -> (r: GodotScene<H, C>)
        ensures
            r.resource == self.resource,
            r.parent == Some(parent),
            r.deferred_signal_connections@ == self.deferred_signal_connections@,
    {
        GodotScene {
            resource: self.resource,
            parent: Some(parent),
            deferred_signal_connections: self.deferred_signal_connections,
        }
    }

    /// The same scene, with one more signal connected when it is instanced.
    pub fn with_signal_connection(
        self,
        node_path: &str,
        signal_name: &str,
        connections: C,
    ) -> (r: GodotScene<H, C>)
        ensures
            r.resource == self.resource,
            r.parent == self.parent,
            r.deferred_signal_connections@.len() == self.deferred_signal_connections@.len() + 1,
            r.deferred_signal_connections@.drop_last() == self.deferred_signal_connections@,
            r.deferred_signal_connections@.last().node_path@ == node_path@,
            r.deferred_signal_connections@.last().signal_name@ == signal_name@,
            r.deferred_signal_connections@.last().connections == connections,
    {
        let mut deferred = self.deferred_signal_connections;
        let ghost before = deferred@;
        deferred.push(
            SignalConnectionSpec {
                node_path: node_path.to_owned(),
                signal_name: signal_name.to_owned(),
                connections,
            },
        );
        assert(deferred@.drop_last() =~= before);
        GodotScene {
            resource: self.resource,
            parent: self.parent,
            deferred_signal_connections: deferred,
        }
    }
}

// ---------------------------------------------------------------------------------------------
// Loading
// ---------------------------------------------------------------------------------------------
/// The scenes that were loaded from a path in this frame.
#[verifier::reject_recursive_types(P)]
pub struct SceneCache<P> {
    loaded: StringHashMap<P>,
}

impl<P> View for SceneCache<P> {
    type V = Map<Seq<char>, P>;

    closed spec fn view(&self) -> Map<Seq<char>, P> {
        self.loaded@
    }
}

/// Where the scene of an entity is to be taken from.
pub enum SceneSource<'a, H, P> {
    /// From the assets.
    Asset(&'a H),
    /// It was loaded in this frame.
    Cached(&'a P),
    /// From its path.
    Load(&'a str),
}

/// What is loaded after the attempt to load a path: a scene is kept, anything else is not.
pub open spec fn after_load<P>(
    cache: Map<Seq<char>, P>,
    path: Seq<char>,
    scene: Option<P>,
) -> Map<Seq<char>, P> {
    match scene {
        Some(scene) => cache.insert(path, scene),
        None => cache,
    }
}

impl<P> SceneCache<P> {
    /// Nothing is loaded.
    pub fn new() -> (r: SceneCache<P>)
        ensures
            r@ == Map::<Seq<char>, P>::empty(),
    {
        SceneCache { loaded: StringHashMap::new() }
    }

    /// Where the scene of an entity is to be taken from.
    pub fn source<'a, H, C>(&'a self, scene: &'a GodotScene<H, C>) -> (r: SceneSource<'a, H, P>)
        ensures
            match scene.resource {
                GodotSceneResource::Handle(handle) => r == SceneSource::<'a, H, P>::Asset(&handle),
                GodotSceneResource::Path(path) => if self@.contains_key(path@) {
                    r == SceneSource::<'a, H, P>::Cached(&self@[path@])
                } else {
                    r matches SceneSource::Load(p) && p@ == path@
                },
            },
    {
        match &scene.resource {
            GodotSceneResource::Handle(handle) => SceneSource::Asset(handle),
            GodotSceneResource::Path(path) => match self.loaded.get(path.as_str()) {
                Some(cached) => SceneSource::Cached(cached),
                None => SceneSource::Load(path.as_str()),
            },
        }
    }

    /// Note what a path was found to hold: a packed scene, or something else.
    pub fn note_loaded(&mut self, path: &str, scene: Option<P>)
        ensures
            final(self)@ == after_load(old(self)@, path@, scene),
    {
        if let Some(scene) = scene {
            self.loaded.insert(path.to_owned(), scene);
        }
    }
}

/// What the scenes loaded in a frame are after one more entity asked for a path, where `at` says
/// what each path holds.
pub open spec fn after_request<P>(
    cache: Map<Seq<char>, P>,
    path: Seq<char>,
    at: spec_fn(Seq<char>) -> Option<P>,
) -> Map<Seq<char>, P> {
    if cache.contains_key(path) {
        cache
    } else {
        after_load(cache, path, at(path))
    }
}

/// The scene that an entity gets for a path.
pub open spec fn given<P>(
    cache: Map<Seq<char>, P>,
    path: Seq<char>,
    at: spec_fn(Seq<char>) -> Option<P>,
) -> Option<P> {
    if cache.contains_key(path) {
        Some(cache[path])
    } else {
        at(path)
    }
}

/// What the scenes loaded in a frame are after entities asked for these paths.
pub open spec fn after_requests<P>(
    paths: Seq<Seq<char>>,
    at: spec_fn(Seq<char>) -> Option<P>,
) -> Map<Seq<char>, P>
    decreases paths.len(),
{
    if paths.len() == 0 {
        Map::empty()
    } else {
        after_request(after_requests(paths.drop_last(), at), paths.last(), at)
    }
}

/// How often a path is loaded when entities ask for these paths.
pub open spec fn loads<P>(
    paths: Seq<Seq<char>>,
    at: spec_fn(Seq<char>) -> Option<P>,
    path: Seq<char>,
) -> nat
    decreases paths.len(),
{
    if paths.len() == 0 {
        0
    } else {
        loads(paths.drop_last(), at, path) + if paths.last() == path && !after_requests(
            paths.drop_last(),
            at,
        ).contains_key(path) {
            1nat
        } else {
            0
        }
    }
}

proof fn lemma_requests<P>(
    paths: Seq<Seq<char>>,
    at: spec_fn(Seq<char>) -> Option<P>,
    path: Seq<char>,
)
    ensures
        after_requests(paths, at).contains_key(path) <==> paths.contains(path) && at(path) is Some,
        after_requests(paths, at).contains_key(path) ==> at(path) == Some(
            after_requests(paths, at)[path],
        ),
        at(path) is Some ==> loads(paths, at, path) == (if paths.contains(path) {
            1nat
        } else {
            0
        }),
    decreases paths.len(),
{
    if paths.len() > 0 {
        let earlier = paths.drop_last();
        lemma_requests(earlier, at, path);
        lemma_requests(earlier, at, paths.last());
        assert(paths =~= earlier.push(paths.last()));
        vstd::seq_lib::lemma_seq_contains_after_push(earlier, paths.last(), path);
    }
}

/// Every entity gets the scene that its path holds, whether it was loaded for that entity or for
/// another before it.
pub proof fn law_cached_scene_is_the_scene<P>(
    paths: Seq<Seq<char>>,
    at: spec_fn(Seq<char>) -> Option<P>,
    path: Seq<char>,
)
    ensures
        given(after_requests(paths, at), path, at) == at(path),
{
    lemma_requests(paths, at, path);
}

/// However many entities ask for a scene by its path in a frame, it is loaded once.
pub proof fn law_scene_is_loaded_once<P>(
    paths: Seq<Seq<char>>,
    at: spec_fn(Seq<char>) -> Option<P>,
    path: Seq<char>,
)
    requires
        at(path) is Some,
    ensures
        loads(paths, at, path) == (if paths.contains(path) {
            1nat
        } else {
            0
        }),
{
    lemma_requests(paths, at, path);
}

// ---------------------------------------------------------------------------------------------
// Spawning
// ---------------------------------------------------------------------------------------------
/// What an instance can be taken for, and what is there to go with it.
#[derive(Clone, Copy, Debug, PartialEq, Eq, Structural)]
pub struct InstanceReading {
    pub is_node_3d: bool,
    pub is_node_2d: bool,
    /// Whether the entity has a transform.
    pub has_transform: bool,
    /// Whether there is a sender for signals.
    pub has_signal_sender: bool,
}

/// One step of putting an instance into the tree.
#[derive(Debug)]
pub enum SpawnStep<C> {
    SetTransform3D,
    SetTransform2D,
    /// The instance has no place: an error is reported, and the transform is left out.
    ReportTransform,
    ConnectSignals(Vec<SignalConnectionSpec<C>>),
    /// There is no sender for signals: an error is reported, and the connections are dropped.
    ReportSignals,
    AddToParent(GodotNodeHandle),
    AddToRoot,
    /// The entity gets the handle of the instance.
    InsertHandle,
}

/// What is done about the transform of the entity. A place in space goes before one in the plane.
pub open spec fn transform_steps<C>(reading: InstanceReading) -> Seq<SpawnStep<C>> {
    if !reading.has_transform {
        seq![]
    } else if reading.is_node_3d {
        seq![SpawnStep::SetTransform3D]
    } else if reading.is_node_2d {
        seq![SpawnStep::SetTransform2D]
    } else {
        seq![SpawnStep::ReportTransform]
    }
}

/// What is done about the signals of the scene.
pub open spec fn signal_steps<C>(
    connections: Vec<SignalConnectionSpec<C>>,
    reading: InstanceReading,
) -> Seq<SpawnStep<C>> {
    if connections@.len() == 0 {
        seq![]
    } else if reading.has_signal_sender {
        seq![SpawnStep::ConnectSignals(connections)]
    } else {
        seq![SpawnStep::ReportSignals]
    }
}

/// Where the instance is put.
pub open spec fn placing_steps<C>(parent: Option<GodotNodeHandle>) -> Seq<SpawnStep<C>> {
    match parent {
        Some(parent) => seq![SpawnStep::AddToParent(parent), SpawnStep::InsertHandle],
        None => seq![SpawnStep::AddToRoot, SpawnStep::InsertHandle],
    }
}

/// What is done with an instance, step by step.
pub open spec fn steps_for<H, C>(scene: GodotScene<H, C>, reading: InstanceReading) -> Seq<
    SpawnStep<C>,
> {
    transform_steps(reading) + signal_steps(scene.deferred_signal_connections, reading)
        + placing_steps(scene.parent)
}

/// What is done with the instance of a scene, if one could be made: its transform, its signals, its
/// place in the tree, and last the handle for the entity. The scene's connections are used up, or
/// dropped. Without an instance nothing is done, and the scene stays as it is.
pub fn spawn_scene<H, C>(
    scene: &mut GodotScene<H, C>,
    instance: Option<InstanceReading>,
) -> (r: Vec<SpawnStep<C>>)
    ensures
        match instance {
            Some(reading) => {
                &&& r@ == steps_for(*old(scene), reading)
                &&& final(scene).resource == old(scene).resource
                &&& final(scene).parent == old(scene).parent
                &&& final(scene).deferred_signal_connections@ == Seq::<
                    SignalConnectionSpec<C>,
                >::empty()
            },
            None => r@ == Seq::<SpawnStep<C>>::empty() && *final(scene) == *old(scene),
        },
{
    match instance {
        Some(reading) => place_instance(scene, reading),
        None => Vec::new(),
    }
}

/// What is done with the instance of a scene.
fn place_instance<H, C>(scene: &mut GodotScene<H, C>, reading: InstanceReading) -> (r: Vec<
    SpawnStep<C>,
>)
    ensures
        r@ == steps_for(*old(scene), reading),
        final(scene).resource == old(scene).resource,
        final(scene).parent == old(scene).parent,
        final(scene).deferred_signal_connections@ == Seq::<SignalConnectionSpec<C>>::empty(),
{
    let ghost before = *scene;
    let mut r: Vec<SpawnStep<C>> = Vec::new();
    if reading.has_transform {
        if reading.is_node_3d {
            r.push(SpawnStep::SetTransform3D);
        } else if reading.is_node_2d {
            r.push(SpawnStep::SetTransform2D);
        } else {
            r.push(SpawnStep::ReportTransform);
        }
    }
    let mut connections: Vec<SignalConnectionSpec<C>> = Vec::new();
    std::mem::swap(&mut connections, &mut scene.deferred_signal_connections);
    if connections.len() > 0 {
        if reading.has_signal_sender {
            r.push(SpawnStep::ConnectSignals(connections));
        } else {
            r.push(SpawnStep::ReportSignals);
        }
    }
    match scene.parent {
        Some(parent) => {
            r.push(SpawnStep::AddToParent(parent));
        },
        None => {
            r.push(SpawnStep::AddToRoot);
        },
    }
    r.push(SpawnStep::InsertHandle);
    assert(r@ =~= steps_for(before, reading));
    r
}

/// Whether a step puts the instance into the tree.
pub open spec fn is_placing<C>(step: SpawnStep<C>) -> bool {
    step is AddToParent || step is AddToRoot
}

/// An instance is put into the tree once, after its transform and its signals were seen to, and the
/// entity gets its handle right after, as the last step.
pub proof fn law_instance_is_placed_once<H, C>(scene: GodotScene<H, C>, reading: InstanceReading)
    ensures
        ({
            let steps = steps_for(scene, reading);
            let n = steps.len() as int;
            &&& n >= 2
            &&& forall|i: int| 0 <= i < n ==> (is_placing(#[trigger] steps[i]) <==> i == n - 2)
            &&& forall|i: int| 0 <= i < n ==> ((#[trigger] steps[i]) is InsertHandle <==> i == n - 1)
        }),
{
}

/// Every connection of a scene is made when there is a sender for signals, and none is made without
/// one.
pub proof fn law_signals_are_all_or_none<H, C>(scene: GodotScene<H, C>, reading: InstanceReading)
    ensures
        scene.deferred_signal_connections@.len() > 0 && reading.has_signal_sender ==> steps_for(
            scene,
            reading,
        ).contains(SpawnStep::ConnectSignals(scene.deferred_signal_connections)),
        !reading.has_signal_sender ==> forall|i: int|
            0 <= i < steps_for(scene, reading).len() ==> !((
            #[trigger] steps_for(scene, reading)[i]) is ConnectSignals),
{
    let steps = steps_for(scene, reading);
    let t = transform_steps::<C>(reading).len() as int;
    if scene.deferred_signal_connections@.len() > 0 && reading.has_signal_sender {
        assert(steps[t] == SpawnStep::ConnectSignals(scene.deferred_signal_connections));
    }
}

/// Whether one of the steps is of that kind.
pub open spec fn some_step<C>(steps: Seq<SpawnStep<C>>, kind: spec_fn(SpawnStep<C>) -> bool) -> bool {
    exists|i: int| 0 <= i < steps.len() && kind(#[trigger] steps[i])
}

/// An entity with a transform hands it to its instance: in space if the instance is a node of space,
/// in the plane if it is one of the plane and not of space; if it is neither, an error is reported.
/// Without a transform none of that happens. It happens before everything else, and once.
pub proof fn law_transform_goes_to_the_instance<H, C>(
    scene: GodotScene<H, C>,
    reading: InstanceReading,
)
    ensures
        ({
            let steps = steps_for(scene, reading);
            &&& some_step(steps, |s: SpawnStep<C>| s is SetTransform3D) <==> reading.has_transform
                && reading.is_node_3d
            &&& some_step(steps, |s: SpawnStep<C>| s is SetTransform2D) <==> reading.has_transform
                && reading.is_node_2d && !reading.is_node_3d
            &&& some_step(steps, |s: SpawnStep<C>| s is ReportTransform) <==> reading.has_transform
                && !reading.is_node_2d && !reading.is_node_3d
            &&& forall|i: int|
                0 <= i < steps.len() && ((#[trigger] steps[i]) is SetTransform3D
                    || steps[i] is SetTransform2D || steps[i] is ReportTransform) ==> i == 0
        }),
{
    let steps = steps_for(scene, reading);
    if reading.has_transform {
        let first = steps[0];
        assert(reading.is_node_3d ==> first is SetTransform3D);
        assert(!reading.is_node_3d && reading.is_node_2d ==> first is SetTransform2D);
        assert(!reading.is_node_3d && !reading.is_node_2d ==> first is ReportTransform);
    }
}

/// A scene with signals to connect has them connected, all in one step, if there is a sender for
/// signals, and an error reported if there is none. A scene without has neither.
pub proof fn law_signals_are_connected_or_reported<H, C>(
    scene: GodotScene<H, C>,
    reading: InstanceReading,
)
    ensures
        ({
            let steps = steps_for(scene, reading);
            let wants = scene.deferred_signal_connections@.len() > 0;
            &&& some_step(steps, |s: SpawnStep<C>| s is ConnectSignals) <==> wants
                && reading.has_signal_sender
            &&& some_step(steps, |s: SpawnStep<C>| s is ReportSignals) <==> wants
                && !reading.has_signal_sender
            &&& forall|i: int|
                0 <= i < steps.len() ==> (#[trigger] steps[i] matches SpawnStep::ConnectSignals(
                    connections,
                ) ==> connections@ == scene.deferred_signal_connections@)
            &&& forall|i: int, j: int|
                #![trigger steps[i], steps[j]]
                0 <= i < j < steps.len() ==> !(steps[i] is ConnectSignals
                    && steps[j] is ConnectSignals)
        }),
{
    let steps = steps_for(scene, reading);
    let at: int = if reading.has_transform {
        1
    } else {
        0
    };
    if scene.deferred_signal_connections@.len() > 0 {
        let step = steps[at];
        assert(reading.has_signal_sender ==> step is ConnectSignals);
        assert(!reading.has_signal_sender ==> step is ReportSignals);
    }
}

/// An instance is put below the parent that the scene asks for, or below the root if it asks for none,
/// as the last step but one; last the entity gets its handle.
pub proof fn law_instance_goes_below_its_parent<H, C>(
    scene: GodotScene<H, C>,
    reading: InstanceReading,
)
    ensures
        ({
            let steps = steps_for(scene, reading);
            let n = steps.len() as int;
            &&& n >= 2
            &&& scene.parent is Some ==> steps[n - 2] == SpawnStep::<C>::AddToParent(
                scene.parent->Some_0,
            )
            &&& scene.parent is None ==> steps[n - 2] is AddToRoot
            &&& steps[n - 1] is InsertHandle
        }),
{
}

/// A scene that was loaded from a path is there for the next one that asks for the path; what is no
/// scene is not kept, and no other path is touched.
pub proof fn law_loaded_scene_is_kept<P>(
    cache: Map<Seq<char>, P>,
    path: Seq<char>,
    scene: Option<P>,
    other: Seq<char>,
)
    ensures
        ({
            let after = after_load(cache, path, scene);
            &&& scene is Some ==> after.contains_key(path) && after[path] == scene->Some_0
            &&& scene is None || other != path ==> after.contains_key(other)
                == cache.contains_key(other)
            &&& (scene is None || other != path) && after.contains_key(other) ==> after[other]
                == cache[other]
        }),
{
}

} // verus!
