//! A snapshot of the scene graph: for each entity its parent, its children in
//! order, and what the pipeline needs to know of it. The walks are bounded by
//! the size of the snapshot, so they end on any snapshot, whatever it holds.
use crate::Entity;
use vstd::prelude::*;

verus! {

/// One entity of the snapshot.
#[derive(Clone, Debug)]
pub struct HierarchyNode {
    pub entity: Entity,
    pub parent: Option<Entity>,
    pub children: Vec<Entity>,
    /// The entity carries a blueprint reference.
    pub has_blueprint: bool,
    /// The entity can play animations.
    pub has_animation_player: bool,
    /// The entity carries animation metadata.
    pub has_animation_infos: bool,
    /// The entity is linked to the instance in which it is nested.
    pub has_spawn_root: bool,
}

/// The snapshot. Where an entity is listed twice, its first node counts.
#[derive(Debug)]
pub struct Hierarchy {
    pub nodes: Vec<HierarchyNode>,
}

/// `at` is the place of the first node of `entity`.
pub open spec fn is_first_node(nodes: Seq<HierarchyNode>, entity: Entity, at: int) -> bool {
    &&& 0 <= at < nodes.len()
    &&& nodes[at].entity == entity
    &&& forall|j: int| 0 <= j < at ==> (#[trigger] nodes[j]).entity != entity
}

/// The first item of `entities` that carries a blueprint reference.
pub open spec fn first_with_blueprint(h: Hierarchy, entities: Seq<Entity>) -> Option<Entity>
    decreases entities.len(),
{
    if entities.len() == 0 {
        None
    } else if h.carries_blueprint(entities[0]) {
        Some(entities[0])
    } else {
        first_with_blueprint(h, entities.drop_first())
    }
}

impl Hierarchy {
    /// The node of `entity`, if the snapshot has one.
    pub open spec fn node_of(self, entity: Entity) -> Option<HierarchyNode> {
        if exists|at: int| is_first_node(self.nodes@, entity, at) {
            Some(self.nodes@[choose|at: int| is_first_node(self.nodes@, entity, at)])
        } else {
            None
        }
    }

    /// The parent of `entity`, if it has one.
    pub open spec fn parent(self, entity: Entity) -> Option<Entity> {
        match self.node_of(entity) {
            Some(node) => node.parent,
            None => None,
        }
    }

    /// The children of `entity`, in order.
    pub open spec fn children(self, entity: Entity) -> Seq<Entity> {
        match self.node_of(entity) {
            Some(node) => node.children@,
            None => Seq::empty(),
        }
    }

    /// `entity` carries a blueprint reference.
    pub open spec fn carries_blueprint(self, entity: Entity) -> bool {
        self.node_of(entity) matches Some(node) && node.has_blueprint
    }

    /// `entity` can play animations.
    pub open spec fn plays_animations(self, entity: Entity) -> bool {
        self.node_of(entity) matches Some(node) && node.has_animation_player
    }

    /// `entity` carries animation metadata.
    pub open spec fn carries_animation_infos(self, entity: Entity) -> bool {
        self.node_of(entity) matches Some(node) && node.has_animation_infos
    }

    /// `entity` is linked to the instance in which it is nested.
    pub open spec fn carries_spawn_root(self, entity: Entity) -> bool {
        self.node_of(entity) matches Some(node) && node.has_spawn_root
    }

    /// One of `entities` is linked to the instance in which it is nested.
    pub open spec fn any_carries_spawn_root(self, entities: Seq<Entity>) -> bool {
        exists|i: int| 0 <= i < entities.len() && self.carries_spawn_root(#[trigger] entities[i])
    }

    /// The ancestors of `entity`, nearest first, at most `limit` of them.
    pub open spec fn ancestors_within(self, entity: Entity, limit: nat) -> Seq<Entity>
        decreases limit,
    {
        if limit == 0 {
            Seq::empty()
        } else {
            match self.parent(entity) {
                Some(p) => seq![p] + self.ancestors_within(p, (limit - 1) as nat),
                None => Seq::empty(),
            }
        }
    }

    /// The ancestors of `entity`, nearest first.
    pub open spec fn ancestors(self, entity: Entity) -> Seq<Entity> {
        self.ancestors_within(entity, self.nodes@.len())
    }

    /// The children of each entity of `level`, in the order of `level`.
    pub open spec fn next_level(self, level: Seq<Entity>) -> Seq<Entity>
        decreases level.len(),
    {
        if level.len() == 0 {
            Seq::empty()
        } else {
            self.next_level(level.drop_last()) + self.children(level.last())
        }
    }

    /// `level` and the levels below it, at most `depth` levels in all.
    pub open spec fn levels_from(self, level: Seq<Entity>, depth: nat) -> Seq<Entity>
        decreases depth,
    {
        if depth == 0 || level.len() == 0 {
            Seq::empty()
        } else {
            level + self.levels_from(self.next_level(level), (depth - 1) as nat)
        }
    }

    /// The descendants of `entity` level by level: its children, then their
    /// children, and so on, each level in the order of its parents.
    pub open spec fn descendants(self, entity: Entity) -> Seq<Entity> {
        self.levels_from(self.children(entity), self.nodes@.len())
    }

    /// The nearest ancestor of `entity` that carries a blueprint reference.
    pub open spec fn nearest_blueprint_ancestor(self, entity: Entity) -> Option<Entity> {
        first_with_blueprint(self, self.ancestors(entity))
    }

    /// A snapshot without entities.
    pub fn new() -> (r: Hierarchy)
        ensures
            r.nodes@.len() == 0,
    {
        Hierarchy { nodes: Vec::new() }
    }

    /// Adds a node to the snapshot.
    pub fn insert(&mut self, node: HierarchyNode)
        ensures
            final(self).nodes@ == old(self).nodes@.push(node),
    {
        self.nodes.push(node);
    }

    /// The place of the first node of `entity`.
    pub fn find(&self, entity: Entity) -> (r: Option<usize>)
        ensures
            r is Some <==> self.node_of(entity) is Some,
            r matches Some(at) ==> is_first_node(self.nodes@, entity, at as int) && self.node_of(
                entity,
            ) == Some(self.nodes@[at as int]),
    {
        let mut i: usize = 0;
        while i < self.nodes.len()
            invariant
                i <= self.nodes@.len(),
                forall|j: int| 0 <= j < i ==> (#[trigger] self.nodes@[j]).entity != entity,
            decreases self.nodes@.len() - i,
        {
            if self.nodes[i].entity == entity {
                proof {
                    assert(is_first_node(self.nodes@, entity, i as int));
                    let chosen = choose|at: int| is_first_node(self.nodes@, entity, at);
                    assert(is_first_node(self.nodes@, entity, chosen));
                    assert(chosen == i);
                }
                return Some(i);
            }
            i += 1;
        }
        None
    }

    /// The parent of `entity`, if it has one.
    pub fn parent_of(&self, entity: Entity) -> (r: Option<Entity>)
        ensures
            r == self.parent(entity),
    {
        match self.find(entity) {
            Some(at) => self.nodes[at].parent,
            None => None,
        }
    }

    /// The children of `entity`, in order.
    pub fn children_of(&self, entity: Entity) -> (r: Vec<Entity>)
        ensures
            r@ == self.children(entity),
    {
        let mut out: Vec<Entity> = Vec::new();
        match self.find(entity) {
            Some(at) => {
                append_entities(&mut out, &self.nodes[at].children);
            },
            None => {},
        }
        out
    }

    /// Whether `entity` carries a blueprint reference.
    pub fn has_blueprint(&self, entity: Entity) -> (r: bool)
        ensures
            r == self.carries_blueprint(entity),
    {
        match self.find(entity) {
            Some(at) => self.nodes[at].has_blueprint,
            None => false,
        }
    }

    /// Whether `entity` can play animations.
    pub fn has_animation_player(&self, entity: Entity) -> (r: bool)
        ensures
            r == self.plays_animations(entity),
    {
        match self.find(entity) {
            Some(at) => self.nodes[at].has_animation_player,
            None => false,
        }
    }

    /// Whether `entity` carries animation metadata.
    pub fn has_animation_infos(&self, entity: Entity) -> (r: bool)
        ensures
            r == self.carries_animation_infos(entity),
    {
        match self.find(entity) {
            Some(at) => self.nodes[at].has_animation_infos,
            None => false,
        }
    }

    /// Whether `entity` is linked to the instance in which it is nested.
    pub fn has_spawn_root(&self, entity: Entity) -> (r: bool)
        ensures
            r == self.carries_spawn_root(entity),
    {
        match self.find(entity) {
            Some(at) => self.nodes[at].has_spawn_root,
            None => false,
        }
    }

    /// Whether one of the ancestors of `entity` is linked to the instance in
    /// which it is nested.
    pub fn has_linked_ancestor(&self, entity: Entity) -> (r: bool)
        ensures
            r == self.any_carries_spawn_root(self.ancestors(entity)),
    {
        let chain = self.iter_ancestors(entity);
        let mut i: usize = 0;
        while i < chain.len()
            invariant
                i <= chain@.len(),
                chain@ == self.ancestors(entity),
                forall|j: int| 0 <= j < i ==> !self.carries_spawn_root(#[trigger] chain@[j]),
            decreases chain@.len() - i,
        {
            if self.has_spawn_root(chain[i]) {
                return true;
            }
            i += 1;
        }
        false
    }

    /// The ancestors of `entity`, nearest first.
    pub fn iter_ancestors(&self, entity: Entity) -> (r: Vec<Entity>)
        ensures
            r@ == self.ancestors(entity),
    {
        let limit = self.nodes.len();
        let mut out: Vec<Entity> = Vec::new();
        let mut current = entity;
        let mut steps: usize = 0;
        while steps < limit
            invariant
                limit == self.nodes@.len(),
                steps <= limit,
                self.ancestors(entity) == out@ + self.ancestors_within(
                    current,
                    (limit - steps) as nat,
                ),
            decreases limit - steps,
        {
            match self.parent_of(current) {
                Some(p) => {
                    let ghost before = out@;
                    out.push(p);
                    assert(before + (seq![p] + self.ancestors_within(
                        p,
                        (limit - steps - 1) as nat,
                    )) =~= out@ + self.ancestors_within(p, (limit - steps - 1) as nat));
                    current = p;
                    steps += 1;
                },
                None => {
                    assert(out@ + Seq::<Entity>::empty() =~= out@);
                    return out;
                },
            }
        }
        assert(out@ + Seq::<Entity>::empty() =~= out@);
        out
    }

    /// The children of each entity of `level`, in the order of `level`.
    pub fn level_below(&self, level: &Vec<Entity>) -> (r: Vec<Entity>)
        ensures
            r@ == self.next_level(level@),
    {
        let mut out: Vec<Entity> = Vec::new();
        let mut i: usize = 0;
        assert(level@.subrange(0, 0) =~= Seq::<Entity>::empty());
        while i < level.len()
            invariant
                i <= level@.len(),
                out@ == self.next_level(level@.subrange(0, i as int)),
            decreases level@.len() - i,
        {
            let below = self.children_of(level[i]);
            proof {
                let grown = level@.subrange(0, i + 1);
                assert(grown.drop_last() =~= level@.subrange(0, i as int));
                assert(grown.last() == level@[i as int]);
            }
            append_entities(&mut out, &below);
            i += 1;
        }
        assert(level@.subrange(0, i as int) =~= level@);
        out
    }

    /// The descendants of `entity`, level by level.
    pub fn iter_descendants(&self, entity: Entity) -> (r: Vec<Entity>)
        ensures
            r@ == self.descendants(entity),
    {
        let limit = self.nodes.len();
        let mut out: Vec<Entity> = Vec::new();
        let mut level = self.children_of(entity);
        let mut depth: usize = 0;
        assert(Seq::<Entity>::empty() + self.levels_from(level@, limit as nat)
            =~= self.levels_from(level@, limit as nat));
        while depth < limit && level.len() > 0
            invariant
                limit == self.nodes@.len(),
                depth <= limit,
                self.descendants(entity) == out@ + self.levels_from(
                    level@,
                    (limit - depth) as nat,
                ),
            decreases limit - depth,
        {
            let ghost before = out@;
            let below = self.level_below(&level);
            append_entities(&mut out, &level);
            assert((before + level@) + self.levels_from(below@, (limit - depth - 1) as nat)
                =~= before + (level@ + self.levels_from(below@, (limit - depth - 1) as nat)));
            level = below;
            depth += 1;
        }
        assert(out@ + Seq::<Entity>::empty() =~= out@);
        out
    }

    /// The nearest ancestor of `entity` that carries a blueprint reference.
    pub fn find_blueprint_ancestor(&self, entity: Entity) -> (r: Option<Entity>)
        ensures
            r == self.nearest_blueprint_ancestor(entity),
    {
        let chain = self.iter_ancestors(entity);
        let mut i: usize = 0;
        assert(chain@.subrange(0, chain@.len() as int) =~= chain@);
        while i < chain.len()
            invariant
                i <= chain@.len(),
                chain@ == self.ancestors(entity),
                first_with_blueprint(*self, chain@) == first_with_blueprint(
                    *self,
                    chain@.subrange(i as int, chain@.len() as int),
                ),
            decreases chain@.len() - i,
        {
            assert(chain@.subrange(i as int, chain@.len() as int)[0] == chain@[i as int]);
            if self.has_blueprint(chain[i]) {
                return Some(chain[i]);
            }
            assert(chain@.subrange(i as int, chain@.len() as int).drop_first() =~= chain@.subrange(
                i + 1,
                chain@.len() as int,
            ));
            i += 1;
        }
        None
    }
}

/// Appends `items` to `out`.
pub fn append_entities(out: &mut Vec<Entity>, items: &Vec<Entity>)
    ensures
        final(out)@ == old(out)@ + items@,
{
    let mut i: usize = 0;
    assert(out@ =~= old(out)@ + items@.subrange(0, 0));
    while i < items.len()
        invariant
            i <= items@.len(),
            out@ == old(out)@ + items@.subrange(0, i as int),
        decreases items@.len() - i,
    {
        out.push(items[i]);
        assert(out@ =~= old(out)@ + items@.subrange(0, i + 1));
        i += 1;
    }
    assert(items@.subrange(0, i as int) =~= items@);
}

/// A walk up that ended before it met its bound is complete: a larger bound
/// gives the same ancestors.
pub proof fn law_short_walk_is_complete(h: Hierarchy, entity: Entity, limit: nat, larger: nat)
    requires
        h.ancestors_within(entity, limit).len() < limit,
        larger >= limit,
    ensures
        h.ancestors_within(entity, larger) == h.ancestors_within(entity, limit),
    decreases limit,
{
    if limit > 0 {
        match h.parent(entity) {
            Some(p) => {
                let rest = h.ancestors_within(p, (limit - 1) as nat);
                assert(h.ancestors_within(entity, limit) == seq![p] + rest);
                assert((seq![p] + rest).len() == rest.len() + 1);
                law_short_walk_is_complete(h, p, (limit - 1) as nat, (larger - 1) as nat);
            },
            None => {},
        }
    }
}

/// Every ancestor that a walk gives is the parent of the entity before it,
/// and the first is the parent of the entity itself.
pub proof fn law_ancestors_are_parents(h: Hierarchy, entity: Entity, limit: nat, at: int)
    requires
        0 <= at < h.ancestors_within(entity, limit).len(),
    ensures
        h.parent(
            if at == 0 {
                entity
            } else {
                h.ancestors_within(entity, limit)[at - 1]
            },
        ) == Some(h.ancestors_within(entity, limit)[at]),
    decreases limit,
{
    if limit > 0 {
        match h.parent(entity) {
            Some(p) => {
                let rest = h.ancestors_within(p, (limit - 1) as nat);
                assert(h.ancestors_within(entity, limit) == seq![p] + rest);
                if at > 0 {
                    law_ancestors_are_parents(h, p, (limit - 1) as nat, at - 1);
                    assert((seq![p] + rest)[at] == rest[at - 1]);
                    if at > 1 {
                        assert((seq![p] + rest)[at - 1] == rest[at - 2]);
                    }
                }
            },
            None => {},
        }
    }
}

/// In a forest no walk up is cut short. Where each entity can be given a
/// depth that is larger than that of its parent, a walk whose bound is at
/// least the depth of the entity gives all its ancestors: a larger bound
/// gives the same.
pub proof fn law_walk_up_is_complete_in_a_forest(
    h: Hierarchy,
    depth: spec_fn(Entity) -> nat,
    entity: Entity,
    limit: nat,
    larger: nat,
)
    requires
        forall|x: Entity| h.parent(x) is Some ==> depth(h.parent(x).unwrap()) < #[trigger] depth(x),
        depth(entity) <= limit <= larger,
    ensures
        h.ancestors_within(entity, larger) == h.ancestors_within(entity, limit),
    decreases limit,
{
    match h.parent(entity) {
        Some(p) => {
            assert(depth(p) < depth(entity));
            law_walk_up_is_complete_in_a_forest(
                h,
                depth,
                p,
                (limit - 1) as nat,
                (larger - 1) as nat,
            );
        },
        None => {},
    }
}

/// Every entity of the level below is a child of an entity of the level.
proof fn lemma_next_level_holds_children(h: Hierarchy, level: Seq<Entity>, child: Entity)
    requires
        h.next_level(level).contains(child),
    ensures
        exists|i: int| 0 <= i < level.len() && h.children(#[trigger] level[i]).contains(child),
    decreases level.len(),
{
    if level.len() > 0 {
        let rest = h.next_level(level.drop_last());
        let last = h.children(level.last());
        let at = choose|k: int| 0 <= k < (rest + last).len() && (rest + last)[k] == child;
        if at < rest.len() {
            assert(rest[at] == child);
            lemma_next_level_holds_children(h, level.drop_last(), child);
            let i = choose|i: int|
                0 <= i < level.drop_last().len() && h.children(
                    #[trigger] level.drop_last()[i],
                ).contains(child);
            assert(level[i] == level.drop_last()[i]);
        } else {
            assert(last[at - rest.len()] == child);
            assert(h.children(level[level.len() - 1]).contains(child));
        }
    }
}

/// In a forest no walk down is cut short. Where each entity can be given a
/// height that is larger than that of its children, a walk whose bound is
/// larger than the height of each entity of its first level gives all the
/// levels: a larger bound gives the same.
pub proof fn law_walk_down_is_complete_in_a_forest(
    h: Hierarchy,
    height: spec_fn(Entity) -> nat,
    level: Seq<Entity>,
    limit: nat,
    larger: nat,
)
    requires
        forall|x: Entity, i: int|
            0 <= i < h.children(x).len() ==> height(#[trigger] h.children(x)[i]) < height(x),
        forall|i: int| 0 <= i < level.len() ==> height(#[trigger] level[i]) < limit,
        limit <= larger,
    ensures
        h.levels_from(level, larger) == h.levels_from(level, limit),
    decreases limit,
{
    if level.len() > 0 {
        assert(height(level[0]) < limit);
        let below = h.next_level(level);
        assert forall|k: int| 0 <= k < below.len() implies height(#[trigger] below[k]) < limit
            - 1 by {
            assert(below.contains(below[k]));
            lemma_next_level_holds_children(h, level, below[k]);
            let i = choose|i: int|
                0 <= i < level.len() && h.children(#[trigger] level[i]).contains(below[k]);
            let c = choose|c: int|
                0 <= c < h.children(level[i]).len() && h.children(level[i])[c] == below[k];
            assert(height(h.children(level[i])[c]) < height(level[i]));
        }
        law_walk_down_is_complete_in_a_forest(
            h,
            height,
            below,
            (limit - 1) as nat,
            (larger - 1) as nat,
        );
    }
}

} // verus!
