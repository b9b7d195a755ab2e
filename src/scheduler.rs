use vstd::prelude::*;
use crate::components::{Component, ComponentType, Point, Renderable, Solid};
use crate::ecs::{add_entity, resolve_world, resolved, Ecs, WorldModel};
use crate::entity::{dedup_kinds, EntityModel};
use crate::systems::{draws, spin_world, DrawCall, Physics, Renderer, User};

verus! {

/// The concrete update units.
#[derive(Clone, Copy, Debug, PartialEq, Eq, Structural)]
pub enum SystemKind {
    Physics(Physics),
    Renderer(Renderer),
    User(User),
}

/// A registered system, addressed by the scheduler.
#[derive(Clone, Copy, Debug, PartialEq, Eq, Structural)]
pub struct ActorSystem {
    pub system: SystemKind,
}

/// The effect of one system's turn: its request resolved through the cache,
/// then its update applied to the result.
pub open spec fn system_turn(w: WorldModel, s: ActorSystem) -> (WorldModel, Seq<DrawCall>) {
    let types = s.required();
    let w1 = resolve_world(w, types);
    let ids = resolved(w1, types);
    match s.system {
        SystemKind::Physics(_) => (spin_world(w1, ids), seq![]),
        SystemKind::Renderer(_) => (w1, draws(ids, w1.entities)),
        SystemKind::User(_) => (w1, seq![]),
    }
}

/// One frame: every system's turn in registration order; the draw requests
/// of all turns in that order.
pub open spec fn frame(w: WorldModel, systems: Seq<ActorSystem>) -> (WorldModel, Seq<DrawCall>)
    decreases systems.len(),
{
    if systems.len() == 0 {
        (w, seq![])
    } else {
        let (w1, d1) = frame(w, systems.drop_last());
        let (w2, d2) = system_turn(w1, systems.last());
        (w2, d1 + d2)
    }
}

impl ActorSystem {
    pub fn new(system: SystemKind) -> (r: ActorSystem)
        ensures
            r.system == system,
    {
        ActorSystem { system }
    }

    /// The component kinds that the system asks for.
    pub open spec fn required(self) -> Seq<ComponentType> {
        match self.system {
            SystemKind::Physics(_) => seq![ComponentType::Renderable],
            SystemKind::Renderer(_) => seq![ComponentType::Renderable],
            SystemKind::User(_) => seq![ComponentType::User],
        }
    }

    pub fn get_component_types(&self) -> (r: Vec<ComponentType>)
        ensures
            r@ == self.required(),
    {
        match &self.system {
            SystemKind::Physics(p) => p.get_component_types(),
            SystemKind::Renderer(p) => p.get_component_types(),
            SystemKind::User(p) => p.get_component_types(),
        }
    }

    /// Runs the system on `entities`; returns the draw requests it made.
    pub fn update(&self, world: &mut Ecs, entities: &Vec<u128>) -> (r: Vec<DrawCall>)
        requires
            old(world).wf(),
        ensures
            final(world).wf(),
            final(world)@ == (match self.system {
                SystemKind::Physics(_) => spin_world(old(world)@, entities@),
                _ => old(world)@,
            }),
            r@ == (match self.system {
                SystemKind::Renderer(_) => draws(entities@, old(world)@.entities),
                _ => Seq::<DrawCall>::empty(),
            }),
    {
        match &self.system {
            SystemKind::Physics(p) => {
                p.update(world, entities);
                Vec::new()
            },
            SystemKind::Renderer(p) => p.update(world, entities),
            SystemKind::User(p) => {
                p.update(world, entities);
                Vec::new()
            },
        }
    }
}

/// The renderable of the first startup entity.
pub open spec fn first_startup_component() -> Component {
    Component::Renderable(Renderable { position: Point { x: 50, y: 60 }, rotation: 3 })
}

/// The renderable of the third startup entity.
pub open spec fn third_startup_component() -> Component {
    Component::Renderable(Renderable { position: Point { x: 100, y: 80 }, rotation: 2 })
}

/// The world after storing the three startup entities with ids `u1`, `u2`, `u3`.
pub open spec fn with_startup_entities(w: WorldModel, u1: u128, u2: u128, u3: u128) -> WorldModel {
    add_entity(
        add_entity(
            add_entity(
                w,
                EntityModel { uid: u1, components: dedup_kinds(seq![first_startup_component()]) },
            ),
            EntityModel { uid: u2, components: dedup_kinds(seq![Component::Solid(Solid {})]) },
        ),
        EntityModel {
            uid: u3,
            components: dedup_kinds(seq![third_startup_component(), Component::Solid(Solid {})]),
        },
    )
}

impl Ecs {
    /// One frame: for each system in order, resolve its request and hand it
    /// the entities found before the next system runs.
    pub fn update(&mut self, systems: &Vec<ActorSystem>) -> (r: Vec<DrawCall>)
        requires
            old(self).wf(),
        ensures
            final(self).wf(),
            (final(self)@, r@) == frame(old(self)@, systems@),
    {
        let ghost w0 = self@;
        let mut out: Vec<DrawCall> = Vec::new();
        let mut k: usize = 0;
        while k < systems.len()
            invariant
                0 <= k <= systems@.len(),
                self.wf(),
                (self@, out@) == frame(w0, systems@.subrange(0, k as int)),
            decreases systems@.len() - k,
        {
            proof {
                assert(systems@.subrange(0, k as int + 1).drop_last() =~= systems@.subrange(0, k as int));
            }
            let system = &systems[k];
            let types = system.get_component_types();
            let ids = self.resolve(&types);
            let mut made = system.update(self, &ids);
            out.append(&mut made);
            k += 1;
        }
        assert(systems@.subrange(0, systems@.len() as int) =~= systems@);
        out
    }

    /// Stores the startup content: a renderable at (50, 60) turned 3 degrees,
    /// a solid marker, and a solid renderable at (100, 80) turned 2 degrees.
    pub fn create_startup_entities(&mut self)
        requires
            old(self).wf(),
        ensures
            final(self).wf(),
            exists|u1: u128, u2: u128, u3: u128|
                final(self)@ == with_startup_entities(old(self)@, u1, u2, u3),
    {
        let ghost w0 = self@;
        let first = vec![
            Component::Renderable(Renderable { position: Point { x: 50, y: 60 }, rotation: 3 }),
        ];
        assert(first@ =~= seq![first_startup_component()]);
        self.create_entity(first);
        let ghost w1 = self@;
        let second = vec![Component::Solid(Solid {})];
        assert(second@ =~= seq![Component::Solid(Solid {})]);
        self.create_entity(second);
        let ghost w2 = self@;
        let third = vec![
            Component::Renderable(Renderable { position: Point { x: 100, y: 80 }, rotation: 2 }),
            Component::Solid(Solid {}),
        ];
        assert(third@ =~= seq![third_startup_component(), Component::Solid(Solid {})]);
        self.create_entity(third);
        proof {
            let u1 = choose|u: u128| w1 == add_entity(
                w0,
                EntityModel { uid: u, components: dedup_kinds(seq![first_startup_component()]) },
            );
            let u2 = choose|u: u128| w2 == add_entity(
                w1,
                EntityModel { uid: u, components: dedup_kinds(seq![Component::Solid(Solid {})]) },
            );
            let u3 = choose|u: u128| self@ == add_entity(
                w2,
                EntityModel {
                    uid: u,
                    components: dedup_kinds(seq![third_startup_component(), Component::Solid(Solid {})]),
                },
            );
            assert(self@ == with_startup_entities(w0, u1, u2, u3));
        }
    }
}

/// The registry in its fixed order: physics, renderer, user.
pub fn startup_systems() -> (r: Vec<ActorSystem>)
    ensures
        r@ == seq![
            ActorSystem { system: SystemKind::Physics(Physics {}) },
            ActorSystem { system: SystemKind::Renderer(Renderer {}) },
            ActorSystem { system: SystemKind::User(User {}) },
        ],
{
    let r = vec![
        ActorSystem::new(SystemKind::Physics(Physics::new())),
        ActorSystem::new(SystemKind::Renderer(Renderer::new())),
        ActorSystem::new(SystemKind::User(User::new())),
    ];
    assert(r@ =~= seq![
        ActorSystem { system: SystemKind::Physics(Physics {}) },
        ActorSystem { system: SystemKind::Renderer(Renderer {}) },
        ActorSystem { system: SystemKind::User(User {}) },
    ]);
    r
}

/// Key code of the escape key.
pub const ESCAPE_KEY: i32 = 27;

/// An input event, as far as the scheduler reads it.
#[derive(Clone, Copy, Debug, PartialEq, Eq, Structural)]
pub enum InputEvent {
    Quit,
    KeyDown(Option<i32>),
    Other,
}

impl InputEvent {
    /// Whether the event asks the loop to stop: a quit, or the escape key.
    pub open spec fn spec_is_stop(self) -> bool {
        match self {
            InputEvent::Quit => true,
            InputEvent::KeyDown(Some(k)) => k == ESCAPE_KEY,
            _ => false,
        }
    }

    pub fn is_stop(&self) -> (r: bool)
        ensures
            r == self.spec_is_stop(),
    {
        match self {
            InputEvent::Quit => true,
            InputEvent::KeyDown(Some(k)) => *k == ESCAPE_KEY,
            _ => false,
        }
    }
}

/// Stage of a run.
#[derive(Clone, Copy, Debug, PartialEq, Eq, Structural)]
pub enum Phase {
    Init,
    Running,
    Terminated,
}

/// The phase after draining `events`: a running loop stops on any stop event.
pub open spec fn next_phase(phase: Phase, events: Seq<InputEvent>) -> Phase {
    if phase == Phase::Running && exists|i: int| 0 <= i < events.len() && (#[trigger] events[i]).spec_is_stop() {
        Phase::Terminated
    } else {
        phase
    }
}

/// Whether some event asks the loop to stop.
fn any_stop(events: &Vec<InputEvent>) -> (r: bool)
    ensures
        r == exists|i: int| 0 <= i < events@.len() && (#[trigger] events@[i]).spec_is_stop(),
{
    let mut i: usize = 0;
    while i < events.len()
        invariant
            0 <= i <= events@.len(),
            forall|k: int| 0 <= k < i ==> !(#[trigger] events@[k]).spec_is_stop(),
        decreases events@.len() - i,
    {
        if events[i].is_stop() {
            return true;
        }
        i += 1;
    }
    false
}

/// The frame driver: the world, the registered systems and the run's phase.
#[derive(Clone, Debug)]
pub struct Game {
    pub ecs: Ecs,
    pub systems: Vec<ActorSystem>,
    pub phase: Phase,
}

impl Game {
    pub open spec fn wf(&self) -> bool {
        self.ecs.wf()
    }

    /// An empty world, no systems yet, before initialisation.
    pub fn new() -> (r: Game)
        ensures
            r.wf(),
            r.phase == Phase::Init,
            r.systems@.len() == 0,
            r.ecs@.entities.len() == 0,
            r.ecs@.cache == Map::<Seq<char>, Seq<u128>>::empty(),
    {
        Game { ecs: Ecs::new(), systems: Vec::new(), phase: Phase::Init }
    }

    /// Initialisation: stores the startup entities, registers the systems in
    /// their fixed order and starts running. Does nothing after the first call.
    pub fn start(&mut self)
        requires
            old(self).wf(),
        ensures
            final(self).wf(),
            old(self).phase != Phase::Init ==> *final(self) == *old(self),
            old(self).phase == Phase::Init ==> final(self).phase == Phase::Running
                && final(self).systems@ == seq![
                ActorSystem { system: SystemKind::Physics(Physics {}) },
                ActorSystem { system: SystemKind::Renderer(Renderer {}) },
                ActorSystem { system: SystemKind::User(User {}) },
            ] && exists|u1: u128, u2: u128, u3: u128|
                final(self).ecs@ == with_startup_entities(old(self).ecs@, u1, u2, u3),
    {
        if self.phase == Phase::Init {
            self.ecs.create_startup_entities();
            self.systems = startup_systems();
            self.phase = Phase::Running;
        }
    }

    /// Drains one batch of events: a stop event ends a running loop.
    pub fn handle_events(&mut self, events: &Vec<InputEvent>)
        ensures
            final(self).phase == next_phase(old(self).phase, events@),
            final(self).ecs == old(self).ecs,
            final(self).systems == old(self).systems,
    {
        if self.phase == Phase::Running && any_stop(events) {
            self.phase = Phase::Terminated;
        }
    }

    /// One frame while running; nothing once terminated or before start.
    pub fn step(&mut self) -> (r: Vec<DrawCall>)
        requires
            old(self).wf(),
        ensures
            final(self).wf(),
            final(self).phase == old(self).phase,
            final(self).systems == old(self).systems,
            old(self).phase == Phase::Running ==> (final(self).ecs@, r@) == frame(
                old(self).ecs@,
                old(self).systems@,
            ),
            old(self).phase != Phase::Running ==> final(self).ecs == old(self).ecs && r@.len() == 0,
    {
        if self.phase == Phase::Running {
            self.ecs.update(&self.systems)
        } else {
            Vec::new()
        }
    }
}

} // verus!
