use ecs_core::components::{Component, ComponentType, Point, Renderable, Solid};
use ecs_core::ecs::Ecs;
use ecs_core::entity::Entity;
use ecs_core::scheduler::{startup_systems, ActorSystem, Game, InputEvent, Phase, SystemKind, ESCAPE_KEY};
use ecs_core::systems::{DrawCall, Physics, Renderer, User};
use ecs_core::texture::fill_gradient;

fn renderable(x: i32, y: i32, rotation: i64) -> Component {
    Component::Renderable(Renderable { position: Point { x, y }, rotation })
}

fn rotation_of(world: &Ecs, uid: u128) -> i64 {
    world.entity(uid).unwrap().get_component(&ComponentType::Renderable).unwrap().as_renderable().unwrap().rotation
}

#[test]
fn physics_before_renderer_is_seen_in_same_frame() {
    let mut world = Ecs::new();
    world.insert_entity(Entity::with_uid(1, vec![renderable(10, 20, 3)]));
    let systems = vec![
        ActorSystem::new(SystemKind::Physics(Physics::new())),
        ActorSystem::new(SystemKind::Renderer(Renderer::new())),
    ];
    let draws = world.update(&systems);
    assert_eq!(draws, vec![DrawCall { x: 10, y: 20, width: 100, height: 100, rotation: 4 }]);
    assert_eq!(rotation_of(&world, 1), 4);
}

#[test]
fn renderer_before_physics_sees_old_rotation() {
    let mut world = Ecs::new();
    world.insert_entity(Entity::with_uid(1, vec![renderable(10, 20, 3)]));
    let systems = vec![
        ActorSystem::new(SystemKind::Renderer(Renderer::new())),
        ActorSystem::new(SystemKind::Physics(Physics::new())),
    ];
    let draws = world.update(&systems);
    assert_eq!(draws[0].rotation, 3);
    assert_eq!(rotation_of(&world, 1), 4);
}

#[test]
fn physics_holds_rotation_at_largest_value() {
    let mut world = Ecs::new();
    world.insert_entity(Entity::with_uid(1, vec![renderable(0, 0, i64::MAX)]));
    Physics::new().update(&mut world, &vec![1]);
    assert_eq!(rotation_of(&world, 1), i64::MAX);
}

#[test]
fn physics_turns_once_per_listed_id() {
    let mut world = Ecs::new();
    world.insert_entity(Entity::with_uid(1, vec![renderable(0, 0, 0), Component::Solid(Solid {})]));
    world.insert_entity(Entity::with_uid(2, vec![renderable(0, 0, 5)]));
    Physics::new().update(&mut world, &vec![1, 1, 42]);
    assert_eq!(rotation_of(&world, 1), 2);
    assert_eq!(rotation_of(&world, 2), 5);
}

#[test]
fn user_system_changes_nothing() {
    let mut world = Ecs::new();
    world.insert_entity(Entity::with_uid(1, vec![renderable(0, 0, 0)]));
    let systems = vec![ActorSystem::new(SystemKind::User(User::new()))];
    assert_eq!(User::new().get_component_types(), vec![ComponentType::User]);
    assert!(world.update(&systems).is_empty());
    assert_eq!(rotation_of(&world, 1), 0);
}

#[test]
fn startup_frame_end_to_end() {
    let mut game = Game::new();
    assert_eq!(game.phase, Phase::Init);
    game.start();
    assert_eq!(game.phase, Phase::Running);
    assert_eq!(game.ecs.entities.len(), 3);
    assert_eq!(game.systems, startup_systems());
    let draws = game.step();
    assert_eq!(draws.len(), 2);
    assert_eq!(draws[0], DrawCall { x: 50, y: 60, width: 100, height: 100, rotation: 4 });
    assert_eq!(draws[1], DrawCall { x: 100, y: 80, width: 100, height: 100, rotation: 3 });
    let ids = game.ecs.resolve(&vec![ComponentType::Renderable]);
    assert_eq!(ids.len(), 2);
    assert_eq!(rotation_of(&game.ecs, ids[0]), 4);
    assert_eq!(rotation_of(&game.ecs, ids[1]), 3);
}

#[test]
fn startup_registry_order() {
    let systems = startup_systems();
    assert_eq!(systems.len(), 3);
    assert_eq!(systems[0].system, SystemKind::Physics(Physics {}));
    assert_eq!(systems[1].system, SystemKind::Renderer(Renderer {}));
    assert_eq!(systems[2].system, SystemKind::User(User {}));
    assert_eq!(systems[0].get_component_types(), vec![ComponentType::Renderable]);
}

#[test]
fn start_twice_changes_nothing() {
    let mut game = Game::new();
    game.start();
    game.start();
    assert_eq!(game.ecs.entities.len(), 3);
    assert_eq!(game.systems.len(), 3);
}

#[test]
fn stop_events_end_the_loop() {
    let mut game = Game::new();
    game.start();
    game.handle_events(&vec![InputEvent::Other, InputEvent::KeyDown(Some(ESCAPE_KEY + 1)), InputEvent::KeyDown(None)]);
    assert_eq!(game.phase, Phase::Running);
    game.handle_events(&vec![InputEvent::Other, InputEvent::KeyDown(Some(ESCAPE_KEY))]);
    assert_eq!(game.phase, Phase::Terminated);
    assert!(game.step().is_empty());

    let mut other = Game::new();
    other.start();
    other.handle_events(&vec![InputEvent::Quit]);
    assert_eq!(other.phase, Phase::Terminated);
}

#[test]
fn events_before_start_are_ignored() {
    let mut game = Game::new();
    game.handle_events(&vec![InputEvent::Quit]);
    assert_eq!(game.phase, Phase::Init);
    assert!(game.step().is_empty());
}

#[test]
fn gradient_fills_pixels() {
    let pitch = 800usize;
    let mut buf = vec![7u8; 255 * pitch + 768];
    fill_gradient(&mut buf, pitch);
    assert_eq!(buf.len(), 255 * pitch + 768);
    assert_eq!(buf[0], 0);
    assert_eq!(buf[1], 0);
    assert_eq!(buf[2], 0);
    let o = 10 * pitch + 3 * 200;
    assert_eq!(buf[o], 200);
    assert_eq!(buf[o + 1], 10);
    assert_eq!(buf[o + 2], 0);
    assert_eq!(buf[255 * pitch + 3 * 255], 255);
    assert_eq!(buf[255 * pitch + 3 * 255 + 1], 255);
    assert_eq!(buf[790], 7);
}
