use smup_client::input::{Event, WindowEvent};
use smup_client::render::{Color, Point, Size, Sprite};
use smup_client::storage::Storage;
use smup_client::types::{GameState, Position, Velocity};
use smup_client::world::{create_world, Entity, EntityBuilder, World};

fn sprite() -> Sprite {
    Sprite {
        color: Color::default(),
        size: Size { w: 50.0f32.to_bits(), h: 50.0f32.to_bits() },
        pivot: Point { x: 25.0f32.to_bits(), y: 25.0f32.to_bits() },
    }
}

#[test]
fn created_world_is_empty() {
    let world = create_world();
    assert_eq!(world.entity_count(), 0);
    assert_eq!(world.positions().bound(), 0);
    assert_eq!(world.velocities().bound(), 0);
    assert_eq!(world.sprites().bound(), 0);
    assert_eq!(world.trackers().bound(), 0);
    assert_eq!(world.game_state(), GameState::default());
    assert!(world.window_event().event.is_none());
}

#[test]
fn new_world_is_the_created_world() {
    let world = World::new();
    assert_eq!(world.entity_count(), 0);
    assert_eq!(world.game_state(), GameState::default());
    assert!(world.window_event().event.is_none());
}

#[test]
fn entities_are_numbered_in_order_of_creation() {
    let mut world = create_world();
    let a = world.create_entity(EntityBuilder::new());
    let b = world.create_entity(EntityBuilder::new());
    let c = world.create_entity(EntityBuilder::new());
    assert_eq!(a, Entity { id: 0 });
    assert_eq!(b, Entity { id: 1 });
    assert_eq!(c, Entity { id: 2 });
    assert_eq!(world.entity_count(), 3);
}

#[test]
fn an_entity_owns_what_its_builder_names() {
    let mut world = create_world();
    let bare = world.create_entity(EntityBuilder::new());
    let p = Position { x: 1.0f32.to_bits(), y: 2.0f32.to_bits() };
    let v = Velocity { x: 3.0f32.to_bits(), y: 4.0f32.to_bits() };
    let full = world.create_entity(
        EntityBuilder::new()
            .with_position(p)
            .with_velocity(v)
            .with_sprite(sprite())
            .with_mouse_tracker(),
    );
    assert_eq!(world.positions().get(bare.id), None);
    assert_eq!(world.velocities().get(bare.id), None);
    assert_eq!(world.sprites().get(bare.id), None);
    assert!(!world.trackers().contains(bare.id));
    assert_eq!(world.positions().get(full.id), Some(&p));
    assert_eq!(world.velocities().get(full.id), Some(&v));
    assert_eq!(world.sprites().get(full.id), Some(&sprite()));
    assert!(world.trackers().contains(full.id));
}

#[test]
fn builder_starts_without_components() {
    let builder = EntityBuilder::new();
    assert!(builder.position.is_none());
    assert!(builder.velocity.is_none());
    assert!(builder.sprite.is_none());
    assert!(!builder.mouse_tracker);
}

#[test]
fn write_position_overwrites_only_an_owned_position() {
    let mut world = create_world();
    let with = world.create_entity(EntityBuilder::new().with_position(Position { x: 1, y: 2 }));
    let without = world.create_entity(EntityBuilder::new());
    assert!(world.write_position(with.id, Position { x: 7, y: 8 }));
    assert_eq!(world.positions().get(with.id), Some(&Position { x: 7, y: 8 }));
    assert!(!world.write_position(without.id, Position { x: 7, y: 8 }));
    assert_eq!(world.positions().get(without.id), None);
    assert!(!world.write_position(99, Position { x: 7, y: 8 }));
    assert_eq!(world.positions().get(99), None);
    assert_eq!(world.entity_count(), 2);
}

#[test]
fn shared_slots_hold_what_was_set() {
    let mut world = create_world();
    let gs = GameState {
        exit: false,
        delta: 0.5f64.to_bits(),
        mouse_position: Position { x: 3.0f32.to_bits(), y: 4.0f32.to_bits() },
    };
    world.set_game_state(gs);
    assert_eq!(world.game_state(), gs);
    world.set_window_event(WindowEvent { event: Some(Event::Other) });
    assert_eq!(world.window_event().event, Some(Event::Other));
    world.set_window_event(WindowEvent::default());
    assert_eq!(world.window_event().event, None);
    assert_eq!(world.game_state(), gs);
}
