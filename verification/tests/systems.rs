use smup_client::input::{handle_mouse_cursor, Event, InputSystem, WindowEvent};
use smup_client::movement::{MouseTrackSystem, PhysicsSystem};
use smup_client::render::{Color, Point, RenderSystem, Size, Sprite};
use smup_client::types::{GameState, Position, Velocity, ONE};
use smup_client::world::{create_world, EntityBuilder};

fn add(a: u32, b: u32) -> u32 {
    (f32::from_bits(a) + f32::from_bits(b)).to_bits()
}

fn sub(a: u32, b: u32) -> u32 {
    (f32::from_bits(a) - f32::from_bits(b)).to_bits()
}

fn narrow(d: u64) -> u32 {
    (f64::from_bits(d) as f32).to_bits()
}

fn position(x: f32, y: f32) -> Position {
    Position { x: x.to_bits(), y: y.to_bits() }
}

fn velocity(x: f32, y: f32) -> Velocity {
    Velocity { x: x.to_bits(), y: y.to_bits() }
}

fn square(side: f32, color: Color) -> Sprite {
    Sprite {
        color,
        size: Size { w: side.to_bits(), h: side.to_bits() },
        pivot: Point { x: (side / 2.0).to_bits(), y: (side / 2.0).to_bits() },
    }
}

fn coordinates(p: &Position) -> (f32, f32) {
    (f32::from_bits(p.x), f32::from_bits(p.y))
}

#[test]
fn physics_adds_velocity_to_position() {
    let mut world = create_world();
    let e = world.create_entity(
        EntityBuilder::new().with_position(position(1.0, 2.0)).with_velocity(velocity(3.0, 4.0)),
    );
    PhysicsSystem::new(add).run(&mut world);
    assert_eq!(coordinates(world.positions().get(e.id).unwrap()), (4.0, 6.0));
    assert_eq!(world.velocities().get(e.id), Some(&velocity(3.0, 4.0)));
    PhysicsSystem::new(add).run(&mut world);
    assert_eq!(coordinates(world.positions().get(e.id).unwrap()), (7.0, 10.0));
}

#[test]
fn physics_does_not_scale_by_the_elapsed_time() {
    let mut world = create_world();
    let mut gs = world.game_state();
    gs.delta = 0.25f64.to_bits();
    world.set_game_state(gs);
    let e = world.create_entity(
        EntityBuilder::new().with_position(position(0.0, 0.0)).with_velocity(velocity(8.0, -8.0)),
    );
    PhysicsSystem::new(add).run(&mut world);
    assert_eq!(coordinates(world.positions().get(e.id).unwrap()), (8.0, -8.0));
}

#[test]
fn physics_moves_each_entity_by_its_own_velocity() {
    let mut world = create_world();
    let a = world.create_entity(
        EntityBuilder::new().with_position(position(0.0, 0.0)).with_velocity(velocity(1.0, 0.0)),
    );
    let still = world.create_entity(EntityBuilder::new().with_position(position(5.0, 5.0)));
    let b = world.create_entity(
        EntityBuilder::new().with_position(position(10.0, 10.0)).with_velocity(velocity(0.5, -2.5)),
    );
    PhysicsSystem::new(add).run(&mut world);
    assert_eq!(coordinates(world.positions().get(a.id).unwrap()), (1.0, 0.0));
    assert_eq!(coordinates(world.positions().get(still.id).unwrap()), (5.0, 5.0));
    assert_eq!(coordinates(world.positions().get(b.id).unwrap()), (10.5, 7.5));
}

#[test]
fn physics_skips_an_entity_without_position() {
    let mut world = create_world();
    let drifting = world.create_entity(EntityBuilder::new().with_velocity(velocity(1.0, 1.0)));
    PhysicsSystem::new(add).run(&mut world);
    assert_eq!(world.positions().get(drifting.id), None);
    assert_eq!(world.velocities().get(drifting.id), Some(&velocity(1.0, 1.0)));
    assert_eq!(world.entity_count(), 1);
}

#[test]
fn physics_leaves_the_shared_state_alone() {
    let mut world = create_world();
    world.create_entity(
        EntityBuilder::new().with_position(position(1.0, 1.0)).with_velocity(velocity(1.0, 1.0)),
    );
    world.set_window_event(WindowEvent { event: Some(Event::Other) });
    let gs = world.game_state();
    PhysicsSystem::new(add).run(&mut world);
    assert_eq!(world.game_state(), gs);
    assert_eq!(world.window_event().event, Some(Event::Other));
}

#[test]
fn mouse_track_snaps_tagged_entities_to_the_pointer() {
    let mut world = create_world();
    let tagged = world.create_entity(
        EntityBuilder::new().with_position(position(1.0, 1.0)).with_mouse_tracker(),
    );
    let free = world.create_entity(EntityBuilder::new().with_position(position(2.0, 2.0)));
    let other = world.create_entity(
        EntityBuilder::new().with_position(position(3.0, 3.0)).with_mouse_tracker(),
    );
    let mut gs = world.game_state();
    gs.mouse_position = position(320.5, 240.25);
    world.set_game_state(gs);
    MouseTrackSystem {}.run(&mut world);
    assert_eq!(world.positions().get(tagged.id), Some(&position(320.5, 240.25)));
    assert_eq!(world.positions().get(other.id), Some(&position(320.5, 240.25)));
    assert_eq!(world.positions().get(free.id), Some(&position(2.0, 2.0)));
    assert_eq!(world.game_state(), gs);
}

#[test]
fn mouse_track_skips_a_tag_without_position() {
    let mut world = create_world();
    let tag_only = world.create_entity(EntityBuilder::new().with_mouse_tracker());
    MouseTrackSystem {}.run(&mut world);
    assert_eq!(world.positions().get(tag_only.id), None);
}

#[test]
fn mouse_track_twice_is_mouse_track_once() {
    let mut world = create_world();
    let tagged = world.create_entity(
        EntityBuilder::new().with_position(position(1.0, 1.0)).with_mouse_tracker(),
    );
    let free = world.create_entity(EntityBuilder::new().with_position(position(2.0, 2.0)));
    let mut gs = world.game_state();
    gs.mouse_position = position(-4.0, 9.0);
    world.set_game_state(gs);
    MouseTrackSystem {}.run(&mut world);
    let once = (*world.positions().get(tagged.id).unwrap(), *world.positions().get(free.id).unwrap());
    MouseTrackSystem {}.run(&mut world);
    let twice = (*world.positions().get(tagged.id).unwrap(), *world.positions().get(free.id).unwrap());
    assert_eq!(once, twice);
    assert_eq!(once.0, position(-4.0, 9.0));
    assert_eq!(world.game_state(), gs);
}

#[test]
fn handle_mouse_cursor_narrows_both_coordinates() {
    let mut gs = GameState { exit: false, delta: 0.125f64.to_bits(), mouse_position: position(0.0, 0.0) };
    handle_mouse_cursor([12.5f64.to_bits(), 0.1f64.to_bits()], &mut gs, &narrow);
    assert_eq!(coordinates(&gs.mouse_position), (12.5f32, 0.1f64 as f32));
    assert!(!gs.exit);
    assert_eq!(f64::from_bits(gs.delta), 0.125);
}

#[test]
fn input_update_sets_the_elapsed_time() {
    let mut world = create_world();
    let before = world.game_state();
    let event = Event::Update { dt: 0.033f64.to_bits() };
    InputSystem::new(narrow).run(&mut world, Some(event));
    let gs = world.game_state();
    assert_eq!(f64::from_bits(gs.delta), 0.033);
    assert_eq!(gs.mouse_position, before.mouse_position);
    assert!(!gs.exit);
    assert_eq!(world.window_event().event, Some(event));
}

#[test]
fn input_pointer_motion_sets_the_pointer() {
    let mut world = create_world();
    let mut gs = world.game_state();
    gs.delta = 0.5f64.to_bits();
    world.set_game_state(gs);
    let event = Event::MouseCursor { x: 100.0f64.to_bits(), y: 200.75f64.to_bits() };
    InputSystem::new(narrow).run(&mut world, Some(event));
    let gs = world.game_state();
    assert_eq!(coordinates(&gs.mouse_position), (100.0, 200.75));
    assert_eq!(f64::from_bits(gs.delta), 0.5);
    assert!(!gs.exit);
    assert_eq!(world.window_event().event, Some(event));
}

#[test]
fn input_keeps_other_events_for_rendering_only() {
    let mut world = create_world();
    let before = world.game_state();
    InputSystem::new(narrow).run(&mut world, Some(Event::Other));
    assert_eq!(world.game_state(), before);
    assert_eq!(world.window_event().event, Some(Event::Other));
}

#[test]
fn input_without_event_asks_for_the_exit() {
    let mut world = create_world();
    world.set_window_event(WindowEvent { event: Some(Event::Other) });
    let before = world.game_state();
    InputSystem::new(narrow).run(&mut world, None);
    let gs = world.game_state();
    assert!(gs.exit);
    assert_eq!(gs.delta, before.delta);
    assert_eq!(gs.mouse_position, before.mouse_position);
    assert_eq!(world.window_event().event, None);
}

#[test]
fn input_leaves_the_components_alone() {
    let mut world = create_world();
    let e = world.create_entity(
        EntityBuilder::new().with_position(position(1.0, 2.0)).with_mouse_tracker(),
    );
    InputSystem::new(narrow)
        .run(&mut world, Some(Event::MouseCursor { x: 9.0f64.to_bits(), y: 9.0f64.to_bits() }));
    assert_eq!(world.positions().get(e.id), Some(&position(1.0, 2.0)));
}

#[test]
fn render_offsets_the_rectangle_by_the_pivot() {
    let mut world = create_world();
    let yellow = Color { r: ONE, g: ONE, ..Color::default() };
    world.create_entity(
        EntityBuilder::new().with_position(position(100.0, 100.0)).with_sprite(square(50.0, yellow)),
    );
    world.set_window_event(WindowEvent { event: Some(Event::Other) });
    let frame = RenderSystem::new(sub).run(&world).unwrap();
    assert_eq!(frame.rectangles.len(), 1);
    let rectangle = frame.rectangles[0];
    assert_eq!(f32::from_bits(rectangle.origin.x), 75.0);
    assert_eq!(f32::from_bits(rectangle.origin.y), 75.0);
    assert_eq!(f32::from_bits(rectangle.size.w), 50.0);
    assert_eq!(f32::from_bits(rectangle.size.h), 50.0);
    assert_eq!(rectangle.color.map(f32::from_bits), [1.0, 1.0, 0.0, 1.0]);
}

#[test]
fn render_clears_to_white() {
    let mut world = create_world();
    world.set_window_event(WindowEvent { event: Some(Event::Update { dt: 0 }) });
    let frame = RenderSystem::new(sub).run(&world).unwrap();
    assert_eq!(frame.background.map(f32::from_bits), [1.0, 1.0, 1.0, 1.0]);
    assert!(frame.rectangles.is_empty());
}

#[test]
fn render_without_event_draws_nothing() {
    let mut world = create_world();
    world.create_entity(
        EntityBuilder::new()
            .with_position(position(100.0, 100.0))
            .with_sprite(square(50.0, Color::default())),
    );
    assert_eq!(RenderSystem::new(sub).run(&world), None);
}

#[test]
fn render_skips_entities_that_lack_position_or_sprite() {
    let mut world = create_world();
    world.create_entity(EntityBuilder::new().with_position(position(1.0, 1.0)));
    world.create_entity(EntityBuilder::new().with_sprite(square(8.0, Color::default())));
    let shown = world.create_entity(
        EntityBuilder::new().with_position(position(10.0, 20.0)).with_sprite(square(4.0, Color::default())),
    );
    world.create_entity(EntityBuilder::new().with_velocity(velocity(1.0, 1.0)));
    world.set_window_event(WindowEvent { event: Some(Event::Other) });
    let frame = RenderSystem::new(sub).run(&world).unwrap();
    assert_eq!(shown.id, 2);
    assert_eq!(frame.rectangles.len(), 1);
    assert_eq!(f32::from_bits(frame.rectangles[0].origin.x), 8.0);
    assert_eq!(f32::from_bits(frame.rectangles[0].origin.y), 18.0);
}

#[test]
fn render_draws_in_order_of_creation() {
    let mut world = create_world();
    let red = Color { r: ONE, ..Color::default() };
    let blue = Color { b: ONE, ..Color::default() };
    world.create_entity(
        EntityBuilder::new().with_position(position(0.0, 0.0)).with_sprite(square(2.0, red)),
    );
    world.create_entity(EntityBuilder::new());
    world.create_entity(
        EntityBuilder::new().with_position(position(0.0, 0.0)).with_sprite(square(6.0, blue)),
    );
    world.set_window_event(WindowEvent { event: Some(Event::Other) });
    let frame = RenderSystem::new(sub).run(&world).unwrap();
    assert_eq!(frame.rectangles.len(), 2);
    assert_eq!(frame.rectangles[0].color, red.to_array());
    assert_eq!(f32::from_bits(frame.rectangles[0].origin.x), -1.0);
    assert_eq!(frame.rectangles[1].color, blue.to_array());
    assert_eq!(f32::from_bits(frame.rectangles[1].origin.x), -3.0);
}

#[test]
fn render_leaves_the_world_as_it_was() {
    let mut world = create_world();
    let e = world.create_entity(
        EntityBuilder::new()
            .with_position(position(100.0, 100.0))
            .with_sprite(square(50.0, Color::default())),
    );
    world.set_window_event(WindowEvent { event: Some(Event::Other) });
    let gs = world.game_state();
    RenderSystem::new(sub).run(&world);
    assert_eq!(world.positions().get(e.id), Some(&position(100.0, 100.0)));
    assert_eq!(world.game_state(), gs);
    assert_eq!(world.window_event().event, Some(Event::Other));
}
