use vstd::prelude::*;
use crate::components::{Component, ComponentType, Point, Renderable};
use crate::entity::{find_kind, Entity, EntityModel};
use crate::ecs::{
    find_entity, has_uid, models, resolve_world, resolved, uids_unique, Ecs, WorldModel,
};

verus! {

/// Side of the square that each renderable is drawn into.
pub const SPRITE_SIZE: u32 = 100;

/// One draw request: a square at (x, y) turned by `rotation` degrees.
#[derive(Clone, Copy, Debug, PartialEq, Eq, Structural)]
pub struct DrawCall {
    pub x: i32,
    pub y: i32,
    pub width: u32,
    pub height: u32,
    pub rotation: i64,
}

/// A rotation advanced by `n` steps of one degree, held at the largest value.
pub open spec fn spun_rotation(r: i64, n: nat) -> i64 {
    if r + n <= i64::MAX {
        (r + n) as i64
    } else {
        i64::MAX
    }
}

pub open spec fn spin_component(c: Component, n: nat) -> Component {
    match c {
        Component::Renderable(r) => Component::Renderable(
            Renderable { position: r.position, rotation: spun_rotation(r.rotation, n) },
        ),
        _ => c,
    }
}

pub open spec fn spin_entity(e: EntityModel, n: nat) -> EntityModel {
    EntityModel { uid: e.uid, components: e.components.map_values(|c: Component| spin_component(c, n)) }
}

/// How often `u` occurs in `ids`.
pub open spec fn count_of(ids: Seq<u128>, u: u128) -> nat
    decreases ids.len(),
{
    if ids.len() == 0 {
        0
    } else {
        count_of(ids.drop_last(), u) + if ids.last() == u {
            1nat
        } else {
            0nat
        }
    }
}

/// The world after the physics step on `ids`: each entity's renderables
/// advanced once per occurrence of its id.
pub open spec fn spin_world(w: WorldModel, ids: Seq<u128>) -> WorldModel {
    WorldModel {
        entities: w.entities.map_values(|e: EntityModel| spin_entity(e, count_of(ids, e.uid))),
        cache: w.cache,
    }
}

/// The stored entity with id `u` (meaningful when one is stored).
pub open spec fn entity_with(ents: Seq<EntityModel>, u: u128) -> EntityModel {
    ents[choose|k: int| 0 <= k < ents.len() && (#[trigger] ents[k]).uid == u]
}

/// The draw request for an entity whose renderable slot holds a renderable.
pub open spec fn draw_of(e: EntityModel) -> Option<DrawCall> {
    match find_kind(e.components, ComponentType::Renderable) {
        Some(Component::Renderable(r)) => Some(
            DrawCall {
                x: r.position.x,
                y: r.position.y,
                width: SPRITE_SIZE,
                height: SPRITE_SIZE,
                rotation: r.rotation,
            },
        ),
        _ => None,
    }
}

/// Draw requests for `ids`, in order, skipping ids with nothing to draw.
pub open spec fn draws(ids: Seq<u128>, ents: Seq<EntityModel>) -> Seq<DrawCall>
    decreases ids.len(),
{
    if ids.len() == 0 {
        seq![]
    } else {
        let rest = draws(ids.drop_last(), ents);
        if has_uid(ents, ids.last()) && draw_of(entity_with(ents, ids.last())).is_some() {
            rest.push(draw_of(entity_with(ents, ids.last())).unwrap())
        } else {
            rest
        }
    }
}

proof fn lemma_entity_with(ents: Seq<EntityModel>, i: int)
    requires
        uids_unique(ents),
        0 <= i < ents.len(),
    ensures
        entity_with(ents, ents[i].uid) == ents[i],
        has_uid(ents, ents[i].uid),
{
    let u = ents[i].uid;
    assert(ents[i].uid == u);
    let k = choose|k: int| 0 <= k < ents.len() && (#[trigger] ents[k]).uid == u;
    assert(k == i);
}

/// Advances every renderable of `e` by one degree.
fn turn_entity(e: &mut Entity)
    ensures
        final(e)@ == spin_entity(old(e)@, 1),
{
    let ghost start = e.components@;
    let mut j: usize = 0;
    while j < e.components.len()
        invariant
            0 <= j <= e.components@.len(),
            e.components@.len() == start.len(),
            e.uid == old(e).uid,
            start == old(e).components@,
            forall|k: int| 0 <= k < j ==> e.components@[k] == spin_component(#[trigger] start[k], 1),
            forall|k: int| j <= k < start.len() ==> e.components@[k] == #[trigger] start[k],
        decreases start.len() - j,
    {
        let turned = match &e.components[j] {
            Component::Renderable(r) => {
                let rotation = if r.rotation < i64::MAX {
                    r.rotation + 1
                } else {
                    i64::MAX
                };
                Some(Renderable { position: r.position, rotation })
            },
            _ => None,
        };
        match turned {
            Some(r) => {
                e.components.set(j, Component::Renderable(r));
            },
            None => {},
        }
        j += 1;
    }
    assert(e.components@ =~= start.map_values(|c: Component| spin_component(c, 1)));
}

/// Integration step: turns each renderable matching entity by one degree.
#[derive(Clone, Copy, Debug, PartialEq, Eq, Structural)]
pub struct Physics {}

/// Draws each renderable matching entity.
#[derive(Clone, Copy, Debug, PartialEq, Eq, Structural)]
pub struct Renderer {}

/// Input-driven behaviour; reserved, does nothing yet.
#[derive(Clone, Copy, Debug, PartialEq, Eq, Structural)]
pub struct User {}

impl Physics {
    pub fn new() -> (r: Physics)
        ensures
            r == (Physics {}),
    {
        Physics {}
    }

    pub fn get_component_types(&self) -> (r: Vec<ComponentType>)
        ensures
            r@ == seq![ComponentType::Renderable],
    {
        let r = vec![ComponentType::Renderable];
        assert(r@ =~= seq![ComponentType::Renderable]);
        r
    }

    /// Turns the renderable of each entity named in `entities` by one degree,
    /// once per occurrence of its id; other components are left as they are.
    pub fn update(&self, world: &mut Ecs, entities: &Vec<u128>)
        requires
            old(world).wf(),
        ensures
            final(world).wf(),
            final(world)@ == spin_world(old(world)@, entities@),
    {
        let ghost w0 = world@;
        let mut p: usize = 0;
        assert(w0.entities.map_values(|e: EntityModel| spin_entity(e, count_of(entities@.subrange(0, 0), e.uid))) =~= w0.entities) by {
            assert forall|k: int| 0 <= k < w0.entities.len() implies spin_entity(w0.entities[k], 0) == w0.entities[k] by {
                assert(w0.entities[k].components.map_values(|c: Component| spin_component(c, 0)) =~= w0.entities[k].components);
            }
        }
        while p < entities.len()
            invariant
                0 <= p <= entities@.len(),
                world.wf(),
                world@ == spin_world(w0, entities@.subrange(0, p as int)),
            decreases entities@.len() - p,
        {
            let ghost before = world@;
            let ghost pre = entities@.subrange(0, p as int);
            let ghost post = entities@.subrange(0, p as int + 1);
            proof {
                assert(post.drop_last() =~= pre);
            }
            let id = entities[p];
            match find_entity(&world.entities, id) {
                Some(i) => {
                    let ghost old_ents = world.entities@;
                    turn_entity(&mut world.entities[i]);
                    proof {
                        assert(world.entities@ == old_ents.update(i as int, world.entities@[i as int]));
                        let ms = models(world.entities@);
                        let olds = models(old_ents);
                        assert forall|k: int| 0 <= k < ms.len() implies #[trigger] ms[k] == spin_entity(
                            w0.entities[k],
                            count_of(post, w0.entities[k].uid),
                        ) by {
                            assert(olds[k] == before.entities[k]);
                            let e0 = w0.entities[k];
                            let n = count_of(pre, e0.uid);
                            let d: nat = if e0.uid == id { 1nat } else { 0nat };
                            assert(post.last() == id);
                            assert(count_of(post, e0.uid) == n + d);
                            assert(olds[i as int].uid == id);
                            if k != i {
                                assert(olds[k].uid != olds[i as int].uid);
                                assert(ms[k] == olds[k]);
                                assert(olds[k].components.map_values(|c: Component| spin_component(c, 0))
                                    =~= olds[k].components);
                            } else {
                                assert(ms[k] == spin_entity(olds[k], 1));
                            }
                            assert(ms[k] == spin_entity(olds[k], d));
                            assert(ms[k].components =~= e0.components.map_values(
                                |c: Component| spin_component(c, n + d),
                            ));
                        }
                        assert(ms =~= spin_world(w0, post).entities);
                        assert forall|a: int, b: int|
                            0 <= a < ms.len() && 0 <= b < ms.len() && a != b implies (#[trigger] ms[a]).uid != (
                            #[trigger] ms[b]).uid by {
                            assert(ms[a].uid == olds[a].uid && ms[b].uid == olds[b].uid);
                        }
                    }
                },
                None => {
                    proof {
                        assert forall|k: int| 0 <= k < w0.entities.len() implies count_of(post, #[trigger] w0.entities[k].uid)
                            == count_of(pre, w0.entities[k].uid) by {
                            assert(before.entities[k].uid == w0.entities[k].uid);
                            if w0.entities[k].uid == id {
                                assert(has_uid(before.entities, id));
                            }
                        }
                        assert(spin_world(w0, post).entities =~= spin_world(w0, pre).entities);
                    }
                },
            }
            p += 1;
        }
        assert(entities@.subrange(0, entities@.len() as int) =~= entities@);
    }
}

impl Renderer {
    pub fn new() -> (r: Renderer)
        ensures
            r == (Renderer {}),
    {
        Renderer {}
    }

    pub fn get_component_types(&self) -> (r: Vec<ComponentType>)
        ensures
            r@ == seq![ComponentType::Renderable],
    {
        let r = vec![ComponentType::Renderable];
        assert(r@ =~= seq![ComponentType::Renderable]);
        r
    }

    /// The draw requests for the entities named in `entities`, in order.
    pub fn update(&self, world: &Ecs, entities: &Vec<u128>) -> (r: Vec<DrawCall>)
        requires
            world.wf(),
        ensures
            r@ == draws(entities@, world@.entities),
    {
        let ghost ents = world@.entities;
        let mut out: Vec<DrawCall> = Vec::new();
        let mut p: usize = 0;
        while p < entities.len()
            invariant
                0 <= p <= entities@.len(),
                world.wf(),
                ents == world@.entities,
                out@ == draws(entities@.subrange(0, p as int), ents),
            decreases entities@.len() - p,
        {
            proof {
                assert(entities@.subrange(0, p as int + 1).drop_last() =~= entities@.subrange(0, p as int));
            }
            match find_entity(&world.entities, entities[p]) {
                Some(i) => {
                    proof {
                        lemma_entity_with(ents, i as int);
                        assert(ents[i as int] == world.entities@[i as int]@);
                    }
                    match world.entities[i].get_component(&ComponentType::Renderable) {
                        Some(c) => match c.as_renderable() {
                            Some(r) => {
                                out.push(
                                    DrawCall {
                                        x: r.position.x,
                                        y: r.position.y,
                                        width: SPRITE_SIZE,
                                        height: SPRITE_SIZE,
                                        rotation: r.rotation,
                                    },
                                );
                            },
                            None => {},
                        },
                        None => {},
                    }
                },
                None => {},
            }
            p += 1;
        }
        assert(entities@.subrange(0, entities@.len() as int) =~= entities@);
        out
    }
}

impl User {
    pub fn new() -> (r: User)
        ensures
            r == (User {}),
    {
        User {}
    }

    pub fn get_component_types(&self) -> (r: Vec<ComponentType>)
        ensures
            r@ == seq![ComponentType::User],
    {
        let r = vec![ComponentType::User];
        assert(r@ =~= seq![ComponentType::User]);
        r
    }

    /// Placeholder: changes nothing.
    pub fn update(&self, world: &Ecs, entities: &Vec<u128>) {
    }
}

} // verus!
