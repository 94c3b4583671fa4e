//! Window events and the system that takes them in.

use vstd::prelude::*;
use crate::types::{Double, GameState, Position, Single};
use crate::world::{World, WorldView};

verus! {

/// What the window reported at a poll, as far as the simulation reads it.
#[derive(Clone, Copy, Debug, PartialEq, Eq, Structural)]
pub enum Event {
    /// The update loop asks for a step; `dt` is the seconds since the last.
    Update { dt: Double },
    /// The pointer moved to (`x`, `y`), in window coordinates.
    MouseCursor { x: Double, y: Double },
    /// Anything else.
    Other,
}

/// The event of the current tick, handed from input to rendering.
#[derive(Clone, Copy, Debug)]
pub struct WindowEvent {
    pub event: Option<Event>,
}

impl Default for WindowEvent {
    /// No event.
    fn default() -> (slot: WindowEvent)
        ensures
            slot.event is None,
    {
        WindowEvent { event: None }
    }
}

/// `pointer` is what `narrow` gave for the coordinates `x` and `y`.
pub open spec fn narrowed<N: Fn(Double) -> Single>(
    narrow: N,
    x: Double,
    y: Double,
    pointer: Position,
) -> bool {
    &&& call_ensures(narrow, (x,), pointer.x)
    &&& call_ensures(narrow, (y,), pointer.y)
}

/// Moves the pointer of `gs` to `position`, a pair of window coordinates in
/// double precision that `narrow` brings to single precision.
pub fn handle_mouse_cursor<N: Fn(Double) -> Single>(
    position: [Double; 2],
    gs: &mut GameState,
    narrow: &N,
)
    requires
        forall|d: Double| call_requires(*narrow, (d,)),
    ensures
        narrowed(*narrow, position@[0], position@[1], final(gs).mouse_position),
        final(gs).exit == old(gs).exit,
        final(gs).delta == old(gs).delta,
{
    gs.mouse_position = Position { x: narrow(position[0]), y: narrow(position[1]) };
}

/// Takes in what the window reported at this tick's poll.
pub struct InputSystem<N> {
    pub narrow: N,
}

impl<N: Fn(Double) -> Single> InputSystem<N> {
    /// The narrowing accepts every number.
    pub open spec fn total(&self) -> bool {
        forall|d: Double| call_requires(self.narrow, (d,))
    }

    /// `post` is `pre` after `polled` was taken in. Without an event the
    /// loop is told to stop and the event slot is emptied. With one, an
    /// update sets the elapsed time, a pointer motion sets the pointer, and
    /// the event is left in the slot whatever its kind.
    pub open spec fn took(&self, pre: WorldView, polled: Option<Event>, post: WorldView) -> bool {
        match polled {
            None => post == (WorldView {
                game_state: GameState { exit: true, ..pre.game_state },
                window_event: None,
                ..pre
            }),
            Some(event) => {
                &&& post == (WorldView {
                    game_state: post.game_state,
                    window_event: Some(event),
                    ..pre
                })
                &&& match event {
                    Event::Update { dt } => post.game_state == (GameState {
                        delta: dt,
                        ..pre.game_state
                    }),
                    Event::MouseCursor { x, y } => {
                        &&& post.game_state == (GameState {
                            mouse_position: post.game_state.mouse_position,
                            ..pre.game_state
                        })
                        &&& narrowed(self.narrow, x, y, post.game_state.mouse_position)
                    },
                    Event::Other => post.game_state == pre.game_state,
                }
            },
        }
    }

    /// Creates the system around the narrowing `narrow`.
    pub fn new(narrow: N) -> (system: Self)
        ensures
            system.narrow == narrow,
    {
        InputSystem { narrow }
    }

    /// Takes `polled` in: what the window's event source returned at this
    /// tick's poll, `None` when the source is exhausted.
    pub fn run(&self, world: &mut World, polled: Option<Event>)
        requires
            self.total(),
        ensures
            self.took(old(world)@, polled, final(world)@),
    {
        let mut gs = world.game_state();
        match polled {
            Some(event) => {
                match event {
                    Event::Update { dt } => {
                        gs.delta = dt;
                    },
                    Event::MouseCursor { x, y } => {
                        handle_mouse_cursor([x, y], &mut gs, &self.narrow);
                    },
                    Event::Other => {},
                }
                world.set_game_state(gs);
                world.set_window_event(WindowEvent { event: Some(event) });
            },
            None => {
                gs.exit = true;
                world.set_game_state(gs);
                world.set_window_event(WindowEvent { event: None });
            },
        }
    }
}

} // verus!
