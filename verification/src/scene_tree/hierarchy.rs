//! Inheritance chains of Godot classes, walked once per class and then remembered.

use std::rc::Rc;

use vstd::hash_map::StringHashMap;
use vstd::prelude::*;

use crate::text::texts;

verus! {

/// A walk up the class hierarchy: the classes passed so far, and the one it stands at. It is over
/// when it stands at no class, whose name is empty.
pub struct ClassWalk {
    chain: Vec<String>,
    current: String,
}

/// The contents of a walk.
pub struct ClassWalkView {
    pub chain: Seq<Seq<char>>,
    pub current: Seq<char>,
}

impl View for ClassWalk {
    type V = ClassWalkView;

    closed spec fn view(&self) -> ClassWalkView {
        ClassWalkView { chain: texts(self.chain@), current: self.current@ }
    }
}

impl ClassWalkView {
    /// The walk after the class it stands at turned out to inherit from `parent`.
    pub open spec fn step(self, parent: Seq<char>) -> ClassWalkView {
        ClassWalkView { chain: self.chain.push(self.current), current: parent }
    }

    /// Whether the walk is over.
    pub open spec fn done(self) -> bool {
        self.current.len() == 0
    }
}

impl ClassWalk {
    /// A walk that starts at this class.
    pub fn start(class_name: &str) -> (r: ClassWalk)
        ensures
            r@ == (ClassWalkView { chain: Seq::empty(), current: class_name@ }),
    {
        let r = ClassWalk { chain: Vec::new(), current: class_name.to_owned() };
        assert(r@.chain =~= Seq::empty());
        r
    }

    /// The class whose parent the walk needs next, or `None` when it is over.
    pub fn pending(&self) -> (r: Option<&String>)
        ensures
            match r {
                Some(class) => !self@.done() && class@ == self@.current,
                None => self@.done(),
            },
    {
        if self.current.as_str().is_empty() {
            None
        } else {
            Some(&self.current)
        }
    }

    /// Go on to the parent of the class the walk stands at; the empty name where it has none.
    pub fn step(&mut self, parent: String)
        requires
            !old(self)@.done(),
        ensures
            final(self)@ == old(self)@.step(parent@),
    {
        let class = self.current.clone();
        self.current = parent;
        let ghost before = self.chain@;
        self.chain.push(class);
        assert(texts(self.chain@) =~= texts(before).push(class@));
    }
}

/// Chains by the name of the class they start at.
pub open spec fn chains_view(chains: Map<Seq<char>, Rc<Vec<String>>>) -> Map<
    Seq<char>,
    Seq<Seq<char>>,
> {
    chains.map_values(|chain: Rc<Vec<String>>| texts(chain@))
}

/// The chains that were walked so far. A chain never changes while the engine runs, and scenes
/// use few distinct classes. A chain that is remembered is shared, not copied; so the cache stays on
/// the thread that asks the engine.
pub struct HierarchyCache {
    chains: StringHashMap<Rc<Vec<String>>>,
}

impl View for HierarchyCache {
    type V = Map<Seq<char>, Seq<Seq<char>>>;

    /// The remembered chains, by the name of the class they start at.
    closed spec fn view(&self) -> Map<Seq<char>, Seq<Seq<char>>> {
        chains_view(self.chains@)
    }
}

impl HierarchyCache {
    /// A cache that remembers nothing.
    pub fn new() -> (r: HierarchyCache)
        ensures
            r@ == Map::<Seq<char>, Seq<Seq<char>>>::empty(),
    {
        let r = HierarchyCache { chains: StringHashMap::new() };
        assert(r@ =~= Map::<Seq<char>, Seq<Seq<char>>>::empty());
        r
    }

    /// The chain of this class, if it was walked before.
    pub fn get(&self, class_name: &str) -> (r: Option<&Rc<Vec<String>>>)
        ensures
            match r {
                Some(chain) => self@.contains_key(class_name@) && texts(chain@)
                    == self@[class_name@],
                None => !self@.contains_key(class_name@),
            },
    {
        self.chains.get(class_name)
    }

    /// Remember the chain of a finished walk from this class, and share it.
    pub fn remember(&mut self, class_name: &str, walk: ClassWalk) -> (r: Rc<Vec<String>>)
        requires
            walk@.done(),
        ensures
            texts(r@) == walk@.chain,
            final(self)@ == old(self)@.insert(class_name@, walk@.chain),
    {
        let ghost before = self.chains@;
        let r = Rc::new(walk.chain);
        self.chains.insert(class_name.to_owned(), r.clone());
        assert(chains_view(self.chains@) =~= chains_view(before).insert(
            class_name@,
            walk@.chain,
        ));
        r
    }
}

/// A question for the chain of a class, in the middle of the walk that answers it. The walk stands at
/// the class whose parent is asked for.
pub struct ChainQuery {
    class: String,
    walk: ClassWalk,
}

/// The contents of a question.
pub struct ChainQueryView {
    pub class: Seq<char>,
    pub walk: ClassWalkView,
}

impl View for ChainQuery {
    type V = ChainQueryView;

    closed spec fn view(&self) -> ChainQueryView {
        ChainQueryView { class: self.class@, walk: self.walk@ }
    }
}

/// What a question for the chain of a class has come to: the chain, or another question, for the
/// parent of a class.
pub enum ChainStep {
    Found(Rc<Vec<String>>),
    Ask(ChainQuery),
}

/// What comes of a walk from `class`: while it goes on, the parent of the class that it stands at is
/// asked for; when it is over, its chain is remembered and found.
pub open spec fn walked(
    cache: Map<Seq<char>, Seq<Seq<char>>>,
    class: Seq<char>,
    walk: ClassWalkView,
    next: Map<Seq<char>, Seq<Seq<char>>>,
    step: ChainStep,
) -> bool {
    if walk.done() {
        &&& next == cache.insert(class, walk.chain)
        &&& step matches ChainStep::Found(chain) && texts(chain@) == walk.chain
    } else {
        &&& next == cache
        &&& step matches ChainStep::Ask(query) && query@ == (ChainQueryView { class, walk })
    }
}

/// What comes of asking for the chain of `class`: the chain that is remembered, and nothing is asked;
/// else a walk from the class.
pub open spec fn requested(
    cache: Map<Seq<char>, Seq<Seq<char>>>,
    class: Seq<char>,
    next: Map<Seq<char>, Seq<Seq<char>>>,
    step: ChainStep,
) -> bool {
    if cache.contains_key(class) {
        &&& next == cache
        &&& step matches ChainStep::Found(chain) && texts(chain@) == cache[class]
    } else {
        walked(
            cache,
            class,
            ClassWalkView { chain: Seq::empty(), current: class },
            next,
            step,
        )
    }
}

fn go_on(cache: &mut HierarchyCache, class: String, walk: ClassWalk) -> (r: ChainStep)
    ensures
        walked(old(cache)@, class@, walk@, final(cache)@, r),
{
    if walk.pending().is_none() {
        ChainStep::Found(cache.remember(class.as_str(), walk))
    } else {
        ChainStep::Ask(ChainQuery { class, walk })
    }
}

/// The inheritance chain of a class: the class, then its ancestors. It is walked once; `Ask` comes as
/// long as a parent is needed for it, and [`ChainQuery::answer`] goes on from there. Later on the list
/// that was found is shared. That it is the same one, and no equal one, is not part of the contract: an
/// `Rc` stands for what it holds.
pub fn get_inheritance_hierarchy(cache: &mut HierarchyCache, class_name: &str) -> (r: ChainStep)
    ensures
        requested(old(cache)@, class_name@, final(cache)@, r),
{
    if let Some(chain) = cache.get(class_name) {
        return ChainStep::Found(chain.clone());
    }
    go_on(cache, class_name.to_owned(), ClassWalk::start(class_name))
}

impl ChainQuery {
    #[verifier::type_invariant]
    spec fn is_open(self) -> bool {
        !self.walk@.done()
    }

    /// The class whose parent is asked for.
    pub fn asks_for(&self) -> (r: &String)
        ensures
            r@ == self@.walk.current,
            r@.len() > 0,
    {
        proof {
            use_type_invariant(self);
        }
        &self.walk.current
    }

    /// Go on with the parent that was asked for; the empty name where the class has none.
    pub fn answer(self, cache: &mut HierarchyCache, parent: String) -> (r: ChainStep)
        ensures
            walked(old(cache)@, self@.class, self@.walk.step(parent@), final(cache)@, r),
    {
        proof {
            use_type_invariant(&self);
        }
        let ChainQuery { class, mut walk } = self;
        walk.step(parent);
        go_on(cache, class, walk)
    }
}

/// Whether `chain` is the inheritance chain of `class` under the parent relation `parent`, which
/// gives the empty name for a class without a parent: the class, its parent, and so on until there
/// is none.
pub open spec fn is_chain(
    parent: spec_fn(Seq<char>) -> Seq<char>,
    class: Seq<char>,
    chain: Seq<Seq<char>>,
) -> bool {
    if class.len() == 0 {
        chain.len() == 0
    } else {
        &&& chain.len() > 0
        &&& chain[0] == class
        &&& forall|i: int| 0 <= i < chain.len() ==> (#[trigger] chain[i]).len() > 0
        &&& forall|i: int, j: int|
            #![trigger chain[i], chain[j]]
            0 <= i < chain.len() && j == i + 1 && j < chain.len() ==> chain[j] == parent(chain[i])
        &&& parent(chain.last()).len() == 0
    }
}

/// Whether a walk from `class` has followed the parent relation so far.
pub open spec fn on_track(
    parent: spec_fn(Seq<char>) -> Seq<char>,
    class: Seq<char>,
    walk: ClassWalkView,
) -> bool {
    let path = walk.chain.push(walk.current);
    &&& path[0] == class
    &&& forall|i: int| 0 <= i < walk.chain.len() ==> (#[trigger] walk.chain[i]).len() > 0
    &&& forall|i: int, j: int|
        #![trigger path[i], path[j]]
        0 <= i < path.len() && j == i + 1 && j < path.len() ==> path[j] == parent(path[i])
}

/// A walk that answers every question by the parent relation stays on track, and when it is over
/// it has collected the inheritance chain.
pub proof fn law_walk_collects_chain(
    parent: spec_fn(Seq<char>) -> Seq<char>,
    class: Seq<char>,
    walk: ClassWalkView,
)
    ensures
        on_track(parent, class, ClassWalkView { chain: Seq::empty(), current: class }),
        on_track(parent, class, walk) && !walk.done() ==> on_track(
            parent,
            class,
            walk.step(parent(walk.current)),
        ),
        on_track(parent, class, walk) && walk.done() ==> is_chain(parent, class, walk.chain),
{
    if on_track(parent, class, walk) && !walk.done() {
        let next = walk.step(parent(walk.current));
        let path = walk.chain.push(walk.current);
        let npath = next.chain.push(next.current);
        assert(npath[0] == path[0]);
        assert forall|i: int, j: int|
            #![trigger npath[i], npath[j]]
            0 <= i < npath.len() && j == i + 1 && j < npath.len() implies npath[j] == parent(
            npath[i],
        ) by {
            if j < path.len() {
                assert(npath[i] == path[i] && npath[j] == path[j]);
            }
        }
    }
    if on_track(parent, class, walk) && walk.done() {
        let path = walk.chain.push(walk.current);
        if walk.chain.len() == 0 {
            assert(path[0] == walk.current);
        } else {
            let n = walk.chain.len() as int;
            assert(path[0] == walk.chain[0]);
            assert(path[n - 1] == walk.chain[n - 1] && path[n] == walk.current);
            assert forall|i: int, j: int|
                #![trigger walk.chain[i], walk.chain[j]]
                0 <= i < n && j == i + 1 && j < n implies walk.chain[j] == parent(
                walk.chain[i],
            ) by {
                assert(path[i] == walk.chain[i] && path[j] == walk.chain[j]);
            }
        }
    }
}

proof fn lemma_chains_agree(
    parent: spec_fn(Seq<char>) -> Seq<char>,
    class: Seq<char>,
    a: Seq<Seq<char>>,
    b: Seq<Seq<char>>,
    n: int,
)
    requires
        class.len() > 0,
        is_chain(parent, class, a),
        is_chain(parent, class, b),
        0 <= n < a.len(),
    ensures
        n < b.len(),
        a[n] == b[n],
    decreases n,
{
    if n > 0 {
        lemma_chains_agree(parent, class, a, b, n - 1);
        assert(a[n] == parent(a[n - 1]));
        if n < b.len() {
            assert(b[n] == parent(b[n - 1]));
        } else {
            assert(b.last() == b[n - 1]);
            assert(a[n].len() > 0);
        }
    }
}

/// A class has one inheritance chain. So where every remembered chain was walked to its end, what
/// the cache gives for a class is what walking again would give.
pub proof fn law_cache_is_transparent(
    parent: spec_fn(Seq<char>) -> Seq<char>,
    cache: Map<Seq<char>, Seq<Seq<char>>>,
    class: Seq<char>,
    walked: Seq<Seq<char>>,
)
    requires
        forall|c: Seq<char>| #[trigger] cache.contains_key(c) ==> is_chain(parent, c, cache[c]),
        is_chain(parent, class, walked),
    ensures
        cache.contains_key(class) ==> cache[class] == walked,
        forall|c: Seq<char>| #[trigger]
            cache.insert(class, walked).contains_key(c) ==> is_chain(
                parent,
                c,
                cache.insert(class, walked)[c],
            ),
{
    if cache.contains_key(class) && class.len() > 0 {
        let kept = cache[class];
        lemma_chains_agree(parent, class, kept, walked, kept.len() - 1);
        lemma_chains_agree(parent, class, walked, kept, walked.len() - 1);
        assert forall|i: int| 0 <= i < kept.len() implies kept[i] == walked[i] by {
            lemma_chains_agree(parent, class, kept, walked, i);
        }
        assert(kept =~= walked);
    } else if cache.contains_key(class) {
        assert(cache[class] =~= walked);
    }
}

/// Every chain that is remembered is the inheritance chain of its class.
pub open spec fn remembers_chains(
    parent: spec_fn(Seq<char>) -> Seq<char>,
    cache: Map<Seq<char>, Seq<Seq<char>>>,
) -> bool {
    forall|c: Seq<char>| #[trigger] cache.contains_key(c) ==> is_chain(parent, c, cache[c])
}

/// Whether all that is remembered in `earlier` is remembered in `later`, as it was.
pub open spec fn forgets_nothing(
    earlier: Map<Seq<char>, Seq<Seq<char>>>,
    later: Map<Seq<char>, Seq<Seq<char>>>,
) -> bool {
    forall|c: Seq<char>| #[trigger]
        earlier.contains_key(c) ==> later.contains_key(c) && later[c] == earlier[c]
}

/// What a step towards the chain of `class` has come to, when every question is answered by the parent
/// relation: the chain of the class, which is remembered then, or a question that is on its track.
/// Either way only true chains are remembered, none is forgotten, and nothing changes for another
/// class.
pub open spec fn on_course(
    parent: spec_fn(Seq<char>) -> Seq<char>,
    class: Seq<char>,
    cache: Map<Seq<char>, Seq<Seq<char>>>,
    next: Map<Seq<char>, Seq<Seq<char>>>,
    step: ChainStep,
) -> bool {
    &&& remembers_chains(parent, next)
    &&& forgets_nothing(cache, next)
    &&& forall|c: Seq<char>| c != class ==> #[trigger] next.contains_key(c) == cache.contains_key(c)
    &&& match step {
        ChainStep::Found(chain) => {
            &&& is_chain(parent, class, texts(chain@))
            &&& next.contains_key(class)
            &&& next[class] == texts(chain@)
        },
        ChainStep::Ask(query) => {
            &&& query@.class == class
            &&& on_track(parent, class, query@.walk)
            &&& !query@.walk.done()
        },
    }
}

/// Asking for the chain of a class gives its inheritance chain, whatever was asked before and whatever
/// is asked in between: where only true chains are remembered, the first step and each that answers a
/// question by the parent relation stay on course.
pub proof fn law_hierarchy_is_the_chain(
    parent: spec_fn(Seq<char>) -> Seq<char>,
    class: Seq<char>,
    cache: Map<Seq<char>, Seq<Seq<char>>>,
    walk: ClassWalkView,
    next: Map<Seq<char>, Seq<Seq<char>>>,
    step: ChainStep,
)
    requires
        remembers_chains(parent, cache),
    ensures
        requested(cache, class, next, step) ==> on_course(parent, class, cache, next, step),
        on_track(parent, class, walk) && !walk.done() && walked(
            cache,
            class,
            walk.step(parent(walk.current)),
            next,
            step,
        ) ==> on_course(parent, class, cache, next, step),
{
    let start = ClassWalkView { chain: Seq::empty(), current: class };
    law_walk_collects_chain(parent, class, start);
    if start.done() {
        law_cache_is_transparent(parent, cache, class, start.chain);
    }
    if on_track(parent, class, walk) && !walk.done() {
        let after = walk.step(parent(walk.current));
        law_walk_collects_chain(parent, class, walk);
        law_walk_collects_chain(parent, class, after);
        if after.done() {
            law_cache_is_transparent(parent, cache, class, after.chain);
        }
    }
}

/// A class whose chain was found once is never walked again: as long as nothing was forgotten since,
/// asking for it gives the same chain at once and changes nothing.
pub proof fn law_hierarchy_is_walked_once(
    class: Seq<char>,
    found: Map<Seq<char>, Seq<Seq<char>>>,
    later: Map<Seq<char>, Seq<Seq<char>>>,
    next: Map<Seq<char>, Seq<Seq<char>>>,
    step: ChainStep,
)
    requires
        found.contains_key(class),
        forgets_nothing(found, later),
        requested(later, class, next, step),
    ensures
        next == later,
        step matches ChainStep::Found(chain) && texts(chain@) == found[class],
{
}

/// A walk asks for the parent of each class of the chain once, in order, and then it is over: what it
/// has passed is the beginning of the chain, and it is over just when that is all of it.
pub proof fn law_walk_asks_along_the_chain(
    parent: spec_fn(Seq<char>) -> Seq<char>,
    class: Seq<char>,
    walk: ClassWalkView,
    chain: Seq<Seq<char>>,
)
    requires
        on_track(parent, class, walk),
        is_chain(parent, class, chain),
    ensures
        walk.chain.is_prefix_of(chain),
        walk.done() <==> walk.chain.len() == chain.len(),
        !walk.done() ==> walk.current == chain[walk.chain.len() as int],
{
    let path = walk.chain.push(walk.current);
    let n = walk.chain.len() as int;
    if class.len() == 0 {
        if n > 0 {
            assert(path[0] == walk.chain[0]);
        }
    } else {
        lemma_path_follows(parent, class, walk, chain, n);
        assert forall|i: int| 0 <= i < n implies walk.chain[i] == chain[i] by {
            lemma_path_follows(parent, class, walk, chain, i);
            assert(path[i] == walk.chain[i]);
            assert(walk.chain[i].len() > 0);
        }
        if n == chain.len() {
            assert(walk.chain =~= chain);
        }
        assert(walk.chain =~= chain.take(n));
    }
}

proof fn lemma_path_follows(
    parent: spec_fn(Seq<char>) -> Seq<char>,
    class: Seq<char>,
    walk: ClassWalkView,
    chain: Seq<Seq<char>>,
    i: int,
)
    requires
        class.len() > 0,
        on_track(parent, class, walk),
        is_chain(parent, class, chain),
        0 <= i <= walk.chain.len(),
    ensures
        i <= chain.len(),
        i < chain.len() ==> walk.chain.push(walk.current)[i] == chain[i],
        i == chain.len() ==> walk.chain.push(walk.current)[i].len() == 0,
    decreases i,
{
    let path = walk.chain.push(walk.current);
    if i > 0 {
        lemma_path_follows(parent, class, walk, chain, i - 1);
        assert(path[i - 1] == walk.chain[i - 1]);
        assert(path[i] == parent(path[i - 1]));
        if i < chain.len() {
            assert(chain[i] == parent(chain[i - 1]));
        }
    }
}

/// Which class of a chain to try next when marking an entity with the classes of its node, after
/// `tried` of them: the first one that is known brings the marks of all its ancestors along, so
/// the search ends with it.
pub fn next_marker_class(chain: &Vec<String>, tried: usize, last_was_known: bool) -> (r: Option<
    usize,
>)
    ensures
        r == (if last_was_known || tried >= chain@.len() {
            None
        } else {
            Some(tried)
        }),
{
    if last_was_known || tried >= chain.len() {
        None
    } else {
        Some(tried)
    }
}

} // verus!
