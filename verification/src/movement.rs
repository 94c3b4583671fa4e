//! The systems that move entities: one snaps tagged entities to the
//! pointer, the other adds each velocity to its position.

use vstd::prelude::*;
use crate::storage::{join, lemma_joined, listed, smaller, Storage};
use crate::types::{Position, Single, Velocity};
use crate::world::{World, WorldView};

verus! {

/// Snaps every entity that has a position and follows the pointer to the
/// pointer's position.
pub struct MouseTrackSystem {}

impl MouseTrackSystem {
    /// The world after the snap: each tagged entity's position is the
    /// pointer's, and nothing else differs.
    pub open spec fn snapped(pre: WorldView) -> WorldView {
        WorldView {
            positions: Map::new(
                |id: int| pre.positions.dom().contains(id),
                |id: int|
                    if pre.trackers.contains(id) {
                        pre.game_state.mouse_position
                    } else {
                        pre.positions[id]
                    },
            ),
            ..pre
        }
    }

    /// Runs the system once on `world`.
    pub fn run(&self, world: &mut World)
        requires
            old(world).wf(),
        ensures
            final(world)@ == Self::snapped(old(world)@),
            final(world).wf(),
    {
        let ghost pre = world@;
        let target = world.game_state().mouse_position;
        let positions = world.positions();
        let trackers = world.trackers();
        let ids = join(positions, trackers);
        proof {
            lemma_joined(
                ids@,
                pre.tracking(),
                smaller(positions.limit(), trackers.limit()),
                pre.entities,
            );
        }
        let mut k: usize = 0;
        while k < ids.len()
            invariant
                k <= ids.len(),
                forall|j: int|
                    0 <= j < ids@.len() ==> pre.tracking().contains(#[trigger] ids@[j] as int),
                forall|id: int| #[trigger]
                    pre.tracking().contains(id) ==> listed(ids@, ids@.len() as int, id),
                world@.positions.dom() == pre.positions.dom(),
                forall|id: int| #[trigger]
                    pre.positions.dom().contains(id) ==> world@.positions[id] == (if listed(
                        ids@,
                        k as int,
                        id,
                    ) {
                        target
                    } else {
                        pre.positions[id]
                    }),
                world@ == (WorldView { positions: world@.positions, ..pre }),
            decreases ids.len() - k,
        {
            let ghost before = world@;
            let id = ids[k];
            world.write_position(id, target);
            assert(world@.positions.dom() =~= pre.positions.dom());
            assert forall|other: int| #[trigger]
                pre.positions.dom().contains(other) implies world@.positions[other] == (if listed(
                ids@,
                k + 1,
                other,
            ) {
                target
            } else {
                pre.positions[other]
            }) by {
                if listed(ids@, k + 1, other) {
                    let j = choose|j: int| 0 <= j < k + 1 && #[trigger] ids@[j] == other;
                    if j < k {
                        assert(listed(ids@, k as int, other));
                    }
                } else {
                    assert(ids@[k as int] != other);
                    if listed(ids@, k as int, other) {
                        let j = choose|j: int| 0 <= j < k && #[trigger] ids@[j] == other;
                        assert(listed(ids@, k + 1, other));
                    }
                }
            }
            k += 1;
        }
        assert forall|id: int| #[trigger]
            pre.positions.dom().contains(id) implies world@.positions[id] == Self::snapped(
            pre,
        ).positions[id] by {
            if pre.trackers.contains(id) {
                assert(pre.tracking().contains(id));
            } else if listed(ids@, ids@.len() as int, id) {
                let j = choose|j: int| 0 <= j < ids@.len() && #[trigger] ids@[j] == id;
                assert(pre.tracking().contains(ids@[j] as int));
            }
        }
        assert(world@.positions =~= Self::snapped(pre).positions);
    }
}

/// After the snap every tagged entity that has a position stands exactly
/// where the pointer is.
pub proof fn lemma_snap_reaches_pointer(world: WorldView, id: int)
    requires
        world.tracking().contains(id),
    ensures
        MouseTrackSystem::snapped(world).positions.dom().contains(id),
        MouseTrackSystem::snapped(world).positions[id] == world.game_state.mouse_position,
        MouseTrackSystem::snapped(world).game_state == world.game_state,
{
}

/// Snapping twice is snapping once: while the pointer stays where it is, a
/// second run changes nothing.
pub proof fn lemma_snap_idempotent(world: WorldView)
    ensures
        MouseTrackSystem::snapped(MouseTrackSystem::snapped(world)) == MouseTrackSystem::snapped(
            world,
        ),
{
    let once = MouseTrackSystem::snapped(world);
    let twice = MouseTrackSystem::snapped(once);
    assert(twice.positions =~= once.positions);
}

/// Adds to the position of every entity that has a velocity that velocity,
/// coordinate by coordinate, with the addition that it was given. A
/// velocity is a displacement per tick: the elapsed time plays no part.
pub struct PhysicsSystem<A> {
    pub add: A,
}

impl<A: Fn(Single, Single) -> Single> PhysicsSystem<A> {
    /// The addition accepts every pair of numbers.
    pub open spec fn total(&self) -> bool {
        forall|a: Single, b: Single| call_requires(self.add, (a, b))
    }

    /// `after` is what the addition gave for `before` and `velocity`, in
    /// each coordinate.
    pub open spec fn sums(&self, before: Position, velocity: Velocity, after: Position) -> bool {
        &&& call_ensures(self.add, (before.x, velocity.x), after.x)
        &&& call_ensures(self.add, (before.y, velocity.y), after.y)
    }

    /// `post` is `pre` after one step: each entity with a position and a
    /// velocity has moved by its velocity, and nothing else differs.
    pub open spec fn integrated(&self, pre: WorldView, post: WorldView) -> bool {
        &&& post == (WorldView { positions: post.positions, ..pre })
        &&& post.positions.dom() == pre.positions.dom()
        &&& forall|id: int|
            #![trigger pre.positions.dom().contains(id)]
            #![trigger post.positions[id]]
            pre.positions.dom().contains(id) ==> if pre.velocities.dom().contains(id) {
                self.sums(pre.positions[id], pre.velocities[id], post.positions[id])
            } else {
                post.positions[id] == pre.positions[id]
            }
    }

    /// Creates the system around the addition `add`.
    pub fn new(add: A) -> (system: Self)
        ensures
            system.add == add,
    {
        PhysicsSystem { add }
    }

    /// Runs the system once on `world`.
    pub fn run(&self, world: &mut World)
        requires
            self.total(),
            old(world).wf(),
        ensures
            self.integrated(old(world)@, final(world)@),
            final(world).wf(),
    {
        let ghost pre = world@;
        let positions = world.positions();
        let velocities = world.velocities();
        let ids = join(positions, velocities);
        proof {
            lemma_joined(
                ids@,
                pre.moving(),
                smaller(positions.limit(), velocities.limit()),
                pre.entities,
            );
        }
        let mut k: usize = 0;
        while k < ids.len()
            invariant
                k <= ids.len(),
                self.total(),
                forall|i: int, j: int| 0 <= i < j < ids@.len() ==> ids@[i] < ids@[j],
                forall|j: int|
                    0 <= j < ids@.len() ==> pre.moving().contains(#[trigger] ids@[j] as int),
                forall|id: int| #[trigger]
                    pre.moving().contains(id) ==> listed(ids@, ids@.len() as int, id),
                world@.positions.dom() == pre.positions.dom(),
                forall|id: int| #[trigger]
                    pre.positions.dom().contains(id) ==> if listed(ids@, k as int, id) {
                        self.sums(pre.positions[id], pre.velocities[id], world@.positions[id])
                    } else {
                        world@.positions[id] == pre.positions[id]
                    },
                world@ == (WorldView { positions: world@.positions, ..pre }),
            decreases ids.len() - k,
        {
            let id = ids[k];
            assert(pre.moving().contains(ids@[k as int] as int));
            assert(!listed(ids@, k as int, id as int));
            let before = *world.positions().get(id).unwrap();
            let velocity = *world.velocities().get(id).unwrap();
            let after = Position {
                x: (self.add)(before.x, velocity.x),
                y: (self.add)(before.y, velocity.y),
            };
            world.write_position(id, after);
            assert(world@.positions.dom() =~= pre.positions.dom());
            assert forall|other: int| #[trigger]
                pre.positions.dom().contains(other) implies if listed(ids@, k + 1, other) {
                self.sums(pre.positions[other], pre.velocities[other], world@.positions[other])
            } else {
                world@.positions[other] == pre.positions[other]
            } by {
                if listed(ids@, k + 1, other) {
                    let j = choose|j: int| 0 <= j < k + 1 && #[trigger] ids@[j] == other;
                    if j < k {
                        assert(listed(ids@, k as int, other));
                    }
                } else {
                    assert(ids@[k as int] != other);
                    if listed(ids@, k as int, other) {
                        let j = choose|j: int| 0 <= j < k && #[trigger] ids@[j] == other;
                        assert(listed(ids@, k + 1, other));
                    }
                }
            }
            k += 1;
        }
        assert forall|id: int| #[trigger] pre.positions.dom().contains(id) implies if pre.velocities.dom().contains(
            id,
        ) {
            self.sums(pre.positions[id], pre.velocities[id], world@.positions[id])
        } else {
            world@.positions[id] == pre.positions[id]
        } by {
            if pre.velocities.dom().contains(id) {
                assert(pre.moving().contains(id));
            } else if listed(ids@, ids@.len() as int, id) {
                let j = choose|j: int| 0 <= j < ids@.len() && #[trigger] ids@[j] == id;
                assert(pre.moving().contains(ids@[j] as int));
            }
        }
    }
}

/// A step moves exactly the entities that have both a position and a
/// velocity: one without a velocity stays where it is, and one without a
/// position has none afterwards either.
pub proof fn lemma_integration_skips<A: Fn(Single, Single) -> Single>(
    physics: PhysicsSystem<A>,
    pre: WorldView,
    post: WorldView,
    id: int,
)
    requires
        physics.integrated(pre, post),
    ensures
        post.positions.dom().contains(id) == pre.positions.dom().contains(id),
        pre.moving().contains(id) ==> physics.sums(
            pre.positions[id],
            pre.velocities[id],
            post.positions[id],
        ),
        pre.positions.dom().contains(id) && !pre.velocities.dom().contains(id)
            ==> post.positions[id] == pre.positions[id],
        post.velocities == pre.velocities,
{
}

/// Where no entity both follows the pointer and has a velocity, the two
/// movement systems can run in either order: moving and then snapping
/// gives what snapping and then moving gives.
pub proof fn lemma_movement_order<A: Fn(Single, Single) -> Single>(
    physics: PhysicsSystem<A>,
    pre: WorldView,
    post: WorldView,
)
    requires
        forall|id: int| !(pre.trackers.contains(id) && pre.velocities.dom().contains(id)),
    ensures
        physics.integrated(MouseTrackSystem::snapped(pre), post) <==> exists|moved: WorldView|
            #[trigger] physics.integrated(pre, moved) && post == MouseTrackSystem::snapped(moved),
{
    let snapped = MouseTrackSystem::snapped(pre);
    if physics.integrated(snapped, post) {
        let moved = WorldView {
            positions: Map::new(
                |id: int| pre.positions.dom().contains(id),
                |id: int|
                    if pre.velocities.dom().contains(id) {
                        post.positions[id]
                    } else {
                        pre.positions[id]
                    },
            ),
            ..pre
        };
        assert(moved.positions.dom() =~= pre.positions.dom());
        assert forall|id: int| #[trigger] pre.positions.dom().contains(id) implies if pre.velocities.dom().contains(
            id,
        ) {
            physics.sums(pre.positions[id], pre.velocities[id], moved.positions[id])
        } else {
            moved.positions[id] == pre.positions[id]
        } by {
            assert(snapped.positions.dom().contains(id));
        }
        assert(physics.integrated(pre, moved));
        assert forall|id: int| #[trigger]
            post.positions.dom().contains(id) implies post.positions[id]
            == MouseTrackSystem::snapped(moved).positions[id] by {
            assert(snapped.positions.dom().contains(id));
        }
        assert(post.positions =~= MouseTrackSystem::snapped(moved).positions);
        assert(post == MouseTrackSystem::snapped(moved));
    }
    if exists|moved: WorldView|
        #[trigger] physics.integrated(pre, moved) && post == MouseTrackSystem::snapped(moved) {
        let moved = choose|moved: WorldView|
            #[trigger] physics.integrated(pre, moved) && post == MouseTrackSystem::snapped(moved);
        assert(post.positions.dom() =~= snapped.positions.dom());
        assert forall|id: int| #[trigger] snapped.positions.dom().contains(id) implies if snapped.velocities.dom().contains(
            id,
        ) {
            physics.sums(snapped.positions[id], snapped.velocities[id], post.positions[id])
        } else {
            post.positions[id] == snapped.positions[id]
        } by {
            assert(pre.positions.dom().contains(id));
        }
        assert(physics.integrated(snapped, post));
    }
}

} // verus!
