//! The world: every component store, and the state that the systems share.

use vstd::prelude::*;
use crate::input::{Event, WindowEvent};
use crate::render::Sprite;
use crate::storage::{below, NullStorage, Storage, VecStorage};
use crate::types::{GameState, Position, Velocity, DOUBLE_ZERO, ZERO};

verus! {

/// An entity, known by its id: the number of entities created before it.
#[derive(Clone, Copy, Debug, PartialEq, Eq, Structural)]
pub struct Entity {
    pub id: usize,
}

/// The components that a new entity is to own.
#[derive(Clone, Copy, Debug)]
pub struct EntityBuilder {
    pub position: Option<Position>,
    pub velocity: Option<Velocity>,
    pub sprite: Option<Sprite>,
    pub mouse_tracker: bool,
}

impl EntityBuilder {
    /// Starts an entity that owns no component.
    pub fn new() -> (builder: Self)
        ensures
            builder.position is None,
            builder.velocity is None,
            builder.sprite is None,
            !builder.mouse_tracker,
    {
        EntityBuilder { position: None, velocity: None, sprite: None, mouse_tracker: false }
    }

    /// Places the entity at `position`.
    pub fn with_position(self, position: Position) -> (builder: Self)
        ensures
            builder == (EntityBuilder { position: Some(position), ..self }),
    {
        EntityBuilder { position: Some(position), ..self }
    }

    /// Sets the entity moving at `velocity`.
    pub fn with_velocity(self, velocity: Velocity) -> (builder: Self)
        ensures
            builder == (EntityBuilder { velocity: Some(velocity), ..self }),
    {
        EntityBuilder { velocity: Some(velocity), ..self }
    }

    /// Gives the entity the look of `sprite`.
    pub fn with_sprite(self, sprite: Sprite) -> (builder: Self)
        ensures
            builder == (EntityBuilder { sprite: Some(sprite), ..self }),
    {
        EntityBuilder { sprite: Some(sprite), ..self }
    }

    /// Tags the entity as one that follows the pointer.
    pub fn with_mouse_tracker(self) -> (builder: Self)
        ensures
            builder == (EntityBuilder { mouse_tracker: true, ..self }),
    {
        EntityBuilder { mouse_tracker: true, ..self }
    }
}

/// What a world holds, as mathematics: the number of entities created, each
/// component type as a map from entity id to component, the set of tagged
/// ids, and the two shared slots.
pub struct WorldView {
    pub entities: nat,
    pub positions: Map<int, Position>,
    pub velocities: Map<int, Velocity>,
    pub sprites: Map<int, Sprite>,
    pub trackers: Set<int>,
    pub game_state: GameState,
    pub window_event: Option<Event>,
}

impl WorldView {
    /// Only created entities own components.
    pub open spec fn wf(self) -> bool {
        &&& below(self.positions.dom(), self.entities)
        &&& below(self.velocities.dom(), self.entities)
        &&& below(self.sprites.dom(), self.entities)
        &&& below(self.trackers, self.entities)
    }

    /// The world before anything was created: no entity, the default game
    /// state, no event.
    pub open spec fn empty() -> WorldView {
        WorldView {
            entities: 0,
            positions: Map::empty(),
            velocities: Map::empty(),
            sprites: Map::empty(),
            trackers: Set::empty(),
            game_state: GameState {
                exit: false,
                delta: DOUBLE_ZERO,
                mouse_position: Position { x: ZERO, y: ZERO },
            },
            window_event: None,
        }
    }

    /// The world after one more entity was created with the components that
    /// `parts` names.
    pub open spec fn spawn(self, parts: EntityBuilder) -> WorldView {
        let id = self.entities as int;
        WorldView {
            entities: self.entities + 1,
            positions: match parts.position {
                Some(position) => self.positions.insert(id, position),
                None => self.positions,
            },
            velocities: match parts.velocity {
                Some(velocity) => self.velocities.insert(id, velocity),
                None => self.velocities,
            },
            sprites: match parts.sprite {
                Some(sprite) => self.sprites.insert(id, sprite),
                None => self.sprites,
            },
            trackers: if parts.mouse_tracker {
                self.trackers.insert(id)
            } else {
                self.trackers
            },
            ..self
        }
    }

    /// The ids of the entities that have a position and follow the pointer.
    pub open spec fn tracking(self) -> Set<int> {
        self.positions.dom().intersect(self.trackers)
    }

    /// The ids of the entities that have a position and a velocity.
    pub open spec fn moving(self) -> Set<int> {
        self.positions.dom().intersect(self.velocities.dom())
    }

    /// The ids of the entities that have a position and a sprite.
    pub open spec fn drawable(self) -> Set<int> {
        self.positions.dom().intersect(self.sprites.dom())
    }
}

/// The component stores of the four component types, the count of entities
/// created so far, and one slot each for the game state and the event of
/// the tick.
pub struct World {
    entities: usize,
    positions: VecStorage<Position>,
    velocities: VecStorage<Velocity>,
    sprites: VecStorage<Sprite>,
    trackers: NullStorage,
    game_state: GameState,
    window_event: WindowEvent,
}

impl View for World {
    type V = WorldView;

    closed spec fn view(&self) -> WorldView {
        WorldView {
            entities: self.entities as nat,
            positions: self.positions@,
            velocities: self.velocities@,
            sprites: self.sprites@,
            trackers: self.trackers@,
            game_state: self.game_state,
            window_event: self.window_event.event,
        }
    }
}

impl World {
    /// Only created entities own components.
    pub open spec fn wf(&self) -> bool {
        self@.wf()
    }

    /// Creates a world with its four component stores empty, the default
    /// game state and no event.
    pub fn new() -> (world: World)
        ensures
            world@ == WorldView::empty(),
            world.wf(),
    {
        World {
            entities: 0,
            positions: VecStorage::new(),
            velocities: VecStorage::new(),
            sprites: VecStorage::new(),
            trackers: NullStorage::new(),
            game_state: GameState {
                exit: false,
                delta: DOUBLE_ZERO,
                mouse_position: Position { x: ZERO, y: ZERO },
            },
            window_event: WindowEvent { event: None },
        }
    }

    /// Returns how many entities were created.
    pub fn entity_count(&self) -> (count: usize)
        ensures
            count == self@.entities,
    {
        self.entities
    }

    /// Creates an entity that owns the components that `parts` names, and
    /// returns it. Its id is the number of entities created before.
    pub fn create_entity(&mut self, parts: EntityBuilder) -> (entity: Entity)
        requires
            old(self).wf(),
            old(self)@.entities < usize::MAX,
        ensures
            entity.id == old(self)@.entities,
            final(self)@ == old(self)@.spawn(parts),
            final(self).wf(),
    {
        let id = self.entities;
        if let Some(position) = parts.position {
            self.positions.insert(id, position);
        }
        if let Some(velocity) = parts.velocity {
            self.velocities.insert(id, velocity);
        }
        if let Some(sprite) = parts.sprite {
            self.sprites.insert(id, sprite);
        }
        if parts.mouse_tracker {
            self.trackers.insert(id);
        }
        self.entities = id + 1;
        Entity { id }
    }

    /// The store of positions.
    pub fn positions(&self) -> (store: &VecStorage<Position>)
        ensures
            store@ == self@.positions,
    {
        &self.positions
    }

    /// The store of velocities.
    pub fn velocities(&self) -> (store: &VecStorage<Velocity>)
        ensures
            store@ == self@.velocities,
    {
        &self.velocities
    }

    /// The store of sprites.
    pub fn sprites(&self) -> (store: &VecStorage<Sprite>)
        ensures
            store@ == self@.sprites,
    {
        &self.sprites
    }

    /// The store of pointer-following tags.
    pub fn trackers(&self) -> (store: &NullStorage)
        ensures
            store@ == self@.trackers,
    {
        &self.trackers
    }

    /// Overwrites the position of the entity `id` with `value`, if the
    /// entity has a position; tells whether it had.
    pub fn write_position(&mut self, id: usize, value: Position) -> (written: bool)
        ensures
            written == old(self)@.positions.dom().contains(id as int),
            final(self)@ == (if written {
                WorldView {
                    positions: old(self)@.positions.insert(id as int, value),
                    ..old(self)@
                }
            } else {
                old(self)@
            }),
    {
        if self.positions.contains(id) {
            proof {
                self.positions.lemma_ids_fit();
            }
            self.positions.insert(id, value);
            true
        } else {
            false
        }
    }

    /// The shared game state.
    pub fn game_state(&self) -> (state: GameState)
        ensures
            state == self@.game_state,
    {
        self.game_state
    }

    /// Replaces the shared game state.
    pub fn set_game_state(&mut self, state: GameState)
        ensures
            final(self)@ == (WorldView { game_state: state, ..old(self)@ }),
    {
        self.game_state = state;
    }

    /// The event of the current tick.
    pub fn window_event(&self) -> (slot: WindowEvent)
        ensures
            slot.event == self@.window_event,
    {
        self.window_event
    }

    /// Replaces the event of the current tick.
    pub fn set_window_event(&mut self, slot: WindowEvent)
        ensures
            final(self)@ == (WorldView { window_event: slot.event, ..old(self)@ }),
    {
        self.window_event = slot;
    }
}

/// Creates the world of the game: the stores for positions, velocities,
/// sprites and pointer tags are registered and empty.
pub fn create_world() -> (world: World)
    ensures
        world@ == WorldView::empty(),
        world.wf(),
{
    World::new()
}

} // verus!
