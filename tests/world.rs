use ecs_core::components::{Component, ComponentType, CustomComponent, Point, Renderable, Solid};
use ecs_core::ecs::{get_entities_from, signature_key, CacheEntry, Ecs, QueryCache};
use ecs_core::entity::Entity;

fn renderable(x: i32, y: i32, rotation: i64) -> Component {
    Component::Renderable(Renderable { position: Point { x, y }, rotation })
}

fn solid() -> Component {
    Component::Solid(Solid {})
}

fn rotation_of(world: &Ecs, uid: u128) -> i64 {
    let e = world.entity(uid).expect("entity stored");
    match e.get_component(&ComponentType::Renderable) {
        Some(Component::Renderable(r)) => r.rotation,
        _ => panic!("no renderable"),
    }
}

#[test]
fn add_component_keeps_existing_of_same_kind() {
    let mut e = Entity::with_uid(7, vec![renderable(1, 2, 30)]);
    e.add_component(renderable(9, 9, 99));
    assert_eq!(e.get_components().len(), 1);
    match e.get_component(&ComponentType::Renderable) {
        Some(Component::Renderable(r)) => {
            assert_eq!(r.position.x, 1);
            assert_eq!(r.position.y, 2);
            assert_eq!(r.rotation, 30);
        }
        _ => panic!("renderable missing"),
    }
    e.add_component(solid());
    assert_eq!(e.get_components().len(), 2);
    assert!(e.get_component(&ComponentType::Solid).is_some());
}

#[test]
fn entity_construction_keeps_first_of_each_kind() {
    let e = Entity::with_uid(3, vec![renderable(5, 5, 1), solid(), renderable(6, 6, 2)]);
    assert_eq!(e.uid, 3);
    assert_eq!(e.get_components().len(), 2);
    assert_eq!(e.get_component(&ComponentType::Renderable).unwrap().as_renderable().unwrap().rotation, 1);
    assert!(e.get_component(&ComponentType::Health).is_none());
}

#[test]
fn downcasts_return_none_on_mismatch() {
    let c = solid();
    assert!(c.as_renderable().is_none());
    assert!(c.as_solid().is_some());
    assert_eq!(c.get_type(), ComponentType::Solid);
    let custom = Component::Custom(CustomComponent { kind: ComponentType::Health, fields: vec![10] });
    assert_eq!(custom.get_type(), ComponentType::Health);
    assert_eq!(custom.as_custom().unwrap().fields, vec![10]);
    assert!(custom.as_renderable().is_none());
}

#[test]
fn type_names_render_variant_names() {
    assert_eq!(ComponentType::Renderable.name(), "Renderable");
    assert_eq!(ComponentType::Hud.to_text(), "Hud");
    assert_eq!(ComponentType::Custom.name(), "Custom");
}

#[test]
fn signature_is_sorted_and_joined() {
    assert_eq!(signature_key(&vec![ComponentType::Solid, ComponentType::Renderable]), "Renderable_Solid");
    assert_eq!(signature_key(&vec![ComponentType::Renderable, ComponentType::Solid]), "Renderable_Solid");
    assert_eq!(
        signature_key(&vec![ComponentType::User, ComponentType::Custom, ComponentType::Damage]),
        "Custom_Damage_User"
    );
    assert_eq!(signature_key(&vec![ComponentType::Hostile, ComponentType::Hud, ComponentType::Health]), "Health_Hostile_Hud");
    assert_eq!(signature_key(&vec![ComponentType::Solid, ComponentType::Solid]), "Solid_Solid");
    assert_eq!(signature_key(&vec![ComponentType::Position]), "Position");
    assert_eq!(signature_key(&vec![]), "");
}

#[test]
fn order_of_requested_kinds_does_not_matter() {
    let mut world = Ecs::new();
    world.insert_entity(Entity::with_uid(1, vec![renderable(0, 0, 0)]));
    world.insert_entity(Entity::with_uid(2, vec![solid()]));
    let a = world.resolve(&vec![ComponentType::Renderable, ComponentType::Solid]);
    let b = world.resolve(&vec![ComponentType::Solid, ComponentType::Renderable]);
    assert_eq!(a, b);
    assert_eq!(a, vec![1, 2]);
    assert_eq!(world.cached_entities.entries.len(), 1);
    assert_eq!(world.cached_entities.entries[0].key, "Renderable_Solid");
}

#[test]
fn query_matches_any_requested_kind() {
    let mut world = Ecs::new();
    world.insert_entity(Entity::with_uid(10, vec![renderable(0, 0, 0)]));
    world.insert_entity(Entity::with_uid(11, vec![Component::Custom(CustomComponent {
        kind: ComponentType::Health,
        fields: vec![],
    })]));
    let r = world.resolve(&vec![ComponentType::Renderable, ComponentType::Solid]);
    assert_eq!(r, vec![10]);
}

#[test]
fn entity_with_two_requested_kinds_is_listed_twice() {
    let mut world = Ecs::new();
    world.insert_entity(Entity::with_uid(5, vec![renderable(0, 0, 0), solid()]));
    let r = world.resolve(&vec![ComponentType::Renderable, ComponentType::Solid]);
    assert_eq!(r, vec![5, 5]);
}

#[test]
fn cache_is_not_invalidated_by_new_entities() {
    let mut world = Ecs::new();
    world.insert_entity(Entity::with_uid(1, vec![solid()]));
    let first = world.resolve(&vec![ComponentType::Solid]);
    assert_eq!(first, vec![1]);
    world.insert_entity(Entity::with_uid(2, vec![solid()]));
    let second = world.resolve(&vec![ComponentType::Solid]);
    assert_eq!(second, vec![1]);
    let fresh = world.resolve(&vec![ComponentType::Solid, ComponentType::Solid]);
    assert_eq!(fresh, vec![1, 2]);
}

#[test]
fn empty_request_caches_empty_list() {
    let mut world = Ecs::new();
    world.insert_entity(Entity::with_uid(1, vec![solid()]));
    assert_eq!(world.resolve(&vec![]), Vec::<u128>::new());
    assert_eq!(world.cached_entities.entries.len(), 1);
    assert_eq!(world.cached_entities.entries[0].key, "");
    world.insert_entity(Entity::with_uid(2, vec![renderable(1, 1, 1)]));
    assert_eq!(world.resolve(&vec![]), Vec::<u128>::new());
    assert_eq!(world.cached_entities.entries.len(), 1);
}

#[test]
fn dangling_cached_ids_are_skipped() {
    let entities = vec![
        Entity::with_uid(1, vec![renderable(0, 0, 0)]),
        Entity::with_uid(2, vec![renderable(1, 1, 0)]),
    ];
    let mut cache = QueryCache {
        entries: vec![CacheEntry { key: "Renderable".to_string(), ids: vec![1, 99, 2] }],
    };
    let r = get_entities_from(&entities, &mut cache, &vec![ComponentType::Renderable]);
    assert_eq!(r, vec![1, 2]);
    assert_eq!(cache.entries.len(), 1);
    assert_eq!(cache.entries[0].ids, vec![1, 99, 2]);
}

#[test]
fn duplicate_ids_are_not_stored_twice() {
    let mut world = Ecs::new();
    world.insert_entity(Entity::with_uid(4, vec![solid()]));
    world.insert_entity(Entity::with_uid(4, vec![renderable(0, 0, 0)]));
    assert_eq!(world.entities.len(), 1);
    assert!(world.entity(4).unwrap().get_component(&ComponentType::Renderable).is_none());
}

#[test]
fn created_entities_get_distinct_ids() {
    let mut world = Ecs::new();
    world.create_entity(vec![solid(), solid()]);
    world.create_entity(vec![solid()]);
    assert_eq!(world.entities.len(), 2);
    assert_ne!(world.entities[0].uid, world.entities[1].uid);
    assert_eq!(world.entities[0].components.len(), 1);
    let r = world.resolve(&vec![ComponentType::Solid]);
    assert_eq!(r.len(), 2);
    assert_eq!(rotation_of_or_none(&world, r[0]), None);
}

fn rotation_of_or_none(world: &Ecs, uid: u128) -> Option<i64> {
    world.entity(uid).and_then(|e| e.get_component(&ComponentType::Renderable)).and_then(|c| c.as_renderable()).map(|r| r.rotation)
}

#[test]
fn rotation_helper_reads_renderable() {
    let mut world = Ecs::new();
    world.insert_entity(Entity::with_uid(8, vec![renderable(0, 0, 12)]));
    assert_eq!(rotation_of(&world, 8), 12);
}

#[test]
fn mutable_component_access_changes_in_place() {
    let mut e = Entity::with_uid(1, vec![solid(), renderable(3, 4, 10)]);
    match e.get_mut_component(&ComponentType::Renderable) {
        Some(c) => *c = renderable(3, 4, 11),
        None => panic!("renderable missing"),
    }
    assert_eq!(e.get_components().len(), 2);
    assert_eq!(e.get_component(&ComponentType::Renderable).unwrap().as_renderable().unwrap().rotation, 11);
    assert!(e.get_mut_component(&ComponentType::Hud).is_none());
}
