//! The schedule of a tick: input, then movement, then rendering.

use vstd::prelude::*;
use crate::input::{Event, InputSystem};
use crate::movement::{MouseTrackSystem, PhysicsSystem};
use crate::render::{Frame, RenderSystem};
use crate::types::{Double, Single};
use crate::world::{World, WorldView};

verus! {

/// What a tick leaves for the loop to do: the frame to draw, if any, and
/// whether to stop.
#[derive(Debug, PartialEq, Eq)]
pub struct Tick {
    pub frame: Option<Frame>,
    pub exit: bool,
}

/// How many polls are used up before the event source is found exhausted:
/// those before the first empty one and that one, or all of them.
pub open spec fn until_exhausted(polls: Seq<Option<Event>>) -> nat
    decreases polls.len(),
{
    if polls.len() == 0 {
        0
    } else if polls[0] is None {
        1
    } else {
        1 + until_exhausted(polls.skip(1))
    }
}

/// How many ticks the loop makes on `polls`, entered with the exit flag
/// `exit`: it ticks before it looks at the flag, and stops after the first
/// tick that leaves the flag set.
pub open spec fn ticks(exit: bool, polls: Seq<Option<Event>>) -> nat {
    if exit {
        if polls.len() == 0 {
            0
        } else {
            1
        }
    } else {
        until_exhausted(polls)
    }
}

/// The four systems in the order in which a tick runs them: input first,
/// so that movement sees the pointer of this tick, and rendering last, so
/// that the frame shows where the entities have moved to.
pub struct Dispatcher<N, A, S> {
    pub input: InputSystem<N>,
    pub mouse_track: MouseTrackSystem,
    pub physics: PhysicsSystem<A>,
    pub render: RenderSystem<S>,
}

impl<
    N: Fn(Double) -> Single,
    A: Fn(Single, Single) -> Single,
    S: Fn(Single, Single) -> Single,
> Dispatcher<N, A, S> {
    /// The arithmetic of every system accepts all numbers.
    pub open spec fn total(&self) -> bool {
        &&& self.input.total()
        &&& self.physics.total()
        &&& self.render.total()
    }

    /// `post` and `frame` are what one tick makes of `pre` and `polled`:
    /// the poll is taken in, the tagged entities are snapped to the
    /// pointer, the moving ones are moved, and the outcome is drawn.
    pub open spec fn ticked(
        &self,
        pre: WorldView,
        polled: Option<Event>,
        post: WorldView,
        frame: Option<Frame>,
    ) -> bool {
        let taken = WorldView {
            game_state: post.game_state,
            window_event: post.window_event,
            ..pre
        };
        &&& self.input.took(pre, polled, taken)
        &&& self.physics.integrated(MouseTrackSystem::snapped(taken), post)
        &&& self.render.drew(post, frame)
    }

    /// `worlds` are the states that a run of ticks went through, one tick
    /// for each of `frames`: every state and frame is what a tick makes of
    /// the state before it and the poll of that place.
    pub open spec fn chained(
        &self,
        worlds: Seq<WorldView>,
        polls: Seq<Option<Event>>,
        frames: Seq<Option<Frame>>,
    ) -> bool {
        &&& worlds.len() == frames.len() + 1
        &&& frames.len() <= polls.len()
        &&& forall|i: int|
            0 <= i < frames.len() ==> self.ticked(
                worlds[i],
                polls[i],
                #[trigger] worlds[i + 1],
                frames[i],
            )
    }

    /// `post` and `frames` are what a run of ticks makes of `pre`, one tick
    /// for each of the frames, on the polls in their order.
    pub open spec fn replayed(
        &self,
        pre: WorldView,
        polls: Seq<Option<Event>>,
        post: WorldView,
        frames: Seq<Option<Frame>>,
    ) -> bool {
        exists|worlds: Seq<WorldView>|
            {
                &&& #[trigger] self.chained(worlds, polls, frames)
                &&& worlds.first() == pre
                &&& worlds.last() == post
            }
    }

    /// Puts the systems of a tick together, each around its arithmetic.
    pub fn new(narrow: N, add: A, sub: S) -> (dispatcher: Self)
        ensures
            dispatcher.input.narrow == narrow,
            dispatcher.physics.add == add,
            dispatcher.render.sub == sub,
    {
        Dispatcher {
            input: InputSystem::new(narrow),
            mouse_track: MouseTrackSystem {},
            physics: PhysicsSystem::new(add),
            render: RenderSystem::new(sub),
        }
    }

    /// Runs one tick on `world`, given what this tick's poll returned.
    /// Without an event the tick asks for the exit and draws nothing.
    pub fn dispatch(&self, world: &mut World, polled: Option<Event>) -> (tick: Tick)
        requires
            self.total(),
            old(world).wf(),
        ensures
            self.ticked(old(world)@, polled, final(world)@, tick.frame),
            tick.exit == final(world)@.game_state.exit,
            tick.exit == (old(world)@.game_state.exit || polled is None),
            tick.frame is Some == polled is Some,
            final(world).wf(),
    {
        self.input.run(world, polled);
        let ghost taken = world@;
        self.mouse_track.run(world);
        self.physics.run(world);
        let frame = self.render.run(world);
        let exit = world.game_state().exit;
        assert(taken == (WorldView {
            game_state: world@.game_state,
            window_event: world@.window_event,
            ..old(world)@
        }));
        Tick { frame, exit }
    }

    /// Runs the loop on `polls`, what the event source returned poll by
    /// poll: one tick for each, until a tick leaves the exit flag set or
    /// the polls are used up. Returns the frame of every tick made.
    pub fn run(&self, world: &mut World, polls: &Vec<Option<Event>>) -> (frames: Vec<Option<Frame>>)
        requires
            self.total(),
            old(world).wf(),
        ensures
            frames@.len() == ticks(old(world)@.game_state.exit, polls@),
            self.replayed(old(world)@, polls@, final(world)@, frames@),
            final(world)@.game_state.exit == (old(world)@.game_state.exit || (frames@.len() > 0
                && polls@[frames@.len() - 1] is None)),
            final(world).wf(),
    {
        let ghost pre = world@;
        let ghost mut worlds = seq![pre];
        let mut frames: Vec<Option<Frame>> = Vec::new();
        let mut running = true;
        let mut i: usize = 0;
        assert(polls@.skip(0) =~= polls@);
        while running && i < polls.len()
            invariant
                self.total(),
                world.wf(),
                i <= polls@.len(),
                frames@.len() == i,
                self.chained(worlds, polls@, frames@),
                worlds.first() == pre,
                worlds.last() == world@,
                running && i > 0 ==> !pre.game_state.exit && !world@.game_state.exit,
                running ==> until_exhausted(polls@) == i + until_exhausted(polls@.skip(i as int)),
                !running ==> i == ticks(pre.game_state.exit, polls@),
                !running ==> world@.game_state.exit,
                world@.game_state.exit == (pre.game_state.exit || (i > 0 && polls@[i - 1] is None)),
            decreases polls@.len() - i + (if running { 1int } else { 0int }),
        {
            let ghost chain = worlds;
            let ghost drawn = frames@;
            assert(polls@.skip(i as int).skip(1) =~= polls@.skip(i + 1));
            assert(polls@.skip(i as int)[0] == polls@[i as int]);
            let tick = self.dispatch(world, polls[i]);
            frames.push(tick.frame);
            proof {
                worlds = worlds.push(world@);
                assert forall|j: int| 0 <= j < frames@.len() implies self.ticked(
                    worlds[j],
                    polls@[j],
                    #[trigger] worlds[j + 1],
                    frames@[j],
                ) by {
                    if j < drawn.len() {
                        assert(worlds[j] == chain[j]);
                        assert(worlds[j + 1] == chain[j + 1]);
                        assert(frames@[j] == drawn[j]);
                    }
                }
            }
            i += 1;
            if tick.exit {
                running = false;
            }
        }
        proof {
            if running {
                assert(polls@.skip(i as int).len() == 0);
            }
        }
        frames
    }
}

/// A tick leaves in the event slot what its own poll returned and nothing
/// older, draws exactly when there was an event, and never takes back an
/// exit that was asked for.
pub proof fn lemma_tick_hands_over<
    N: Fn(Double) -> Single,
    A: Fn(Single, Single) -> Single,
    S: Fn(Single, Single) -> Single,
>(
    dispatcher: Dispatcher<N, A, S>,
    pre: WorldView,
    polled: Option<Event>,
    post: WorldView,
    frame: Option<Frame>,
)
    requires
        dispatcher.ticked(pre, polled, post, frame),
    ensures
        post.window_event == polled,
        frame is Some <==> polled is Some,
        post.game_state.exit == (pre.game_state.exit || polled is None),
{
}

/// The loop stops with the tick that first finds the event source
/// exhausted: entered with the exit flag clear, it makes as many ticks as
/// there are polls up to and including the first empty one.
pub proof fn lemma_loop_stops_at_exhaustion(polls: Seq<Option<Event>>, first: int)
    requires
        0 <= first < polls.len(),
        polls[first] is None,
        forall|j: int| 0 <= j < first ==> polls[j] is Some,
    ensures
        ticks(false, polls) == first + 1,
    decreases first,
{
    if first > 0 {
        let rest = polls.skip(1);
        assert(rest[first - 1] == polls[first]);
        assert forall|j: int| 0 <= j < first - 1 implies rest[j] is Some by {
            assert(rest[j] == polls[j + 1]);
        }
        lemma_loop_stops_at_exhaustion(rest, first - 1);
    }
}

/// While the event source is not exhausted the loop goes on: entered with
/// the exit flag clear, it makes one tick for every poll.
pub proof fn lemma_loop_uses_every_event(polls: Seq<Option<Event>>)
    requires
        forall|j: int| 0 <= j < polls.len() ==> polls[j] is Some,
    ensures
        ticks(false, polls) == polls.len(),
    decreases polls.len(),
{
    if polls.len() > 0 {
        let rest = polls.skip(1);
        assert forall|j: int| 0 <= j < rest.len() implies rest[j] is Some by {
            assert(rest[j] == polls[j + 1]);
        }
        lemma_loop_uses_every_event(rest);
    }
}

/// When the event source is exhausted, the tick asks for the exit and
/// draws nothing, whatever the world held.
pub proof fn lemma_exhaustion_exits<
    N: Fn(Double) -> Single,
    A: Fn(Single, Single) -> Single,
    S: Fn(Single, Single) -> Single,
>(dispatcher: Dispatcher<N, A, S>, pre: WorldView, post: WorldView, frame: Option<Frame>)
    requires
        dispatcher.ticked(pre, None, post, frame),
    ensures
        post.game_state.exit,
        post.window_event is None,
        frame is None,
{
}

} // verus!
