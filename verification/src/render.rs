//! Sprites and the frames drawn from them.

use vstd::prelude::*;
use crate::storage::{ascending, join, lemma_ascending_members, lemma_joined, smaller, Storage};
use crate::types::{Position, Single, ONE, ZERO};
use crate::world::{World, WorldView};

verus! {

/// A colour by its red, green, blue and alpha channels.
#[derive(Clone, Copy, Debug, PartialEq, Eq, Structural)]
pub struct Color {
    pub r: Single,
    pub g: Single,
    pub b: Single,
    pub a: Single,
}

impl Default for Color {
    /// Opaque black.
    fn default() -> (color: Color)
        ensures
            color == (Color { r: ZERO, g: ZERO, b: ZERO, a: ONE }),
    {
        Color { r: ZERO, g: ZERO, b: ZERO, a: ONE }
    }
}

impl Color {
    /// The four channels in the order red, green, blue, alpha.
    pub open spec fn channels(&self) -> Seq<Single> {
        seq![self.r, self.g, self.b, self.a]
    }

    /// Returns the channels as an array, red first and alpha last.
    pub fn to_array(&self) -> (channels: [Single; 4])
        ensures
            channels@ == self.channels(),
    {
        let channels = [self.r, self.g, self.b, self.a];
        assert(channels@ =~= self.channels());
        channels
    }
}

/// The width and height of a rectangle.
#[derive(Clone, Copy, Debug, PartialEq, Eq, Structural)]
pub struct Size {
    pub w: Single,
    pub h: Single,
}

impl Default for Size {
    /// No extent.
    fn default() -> (size: Size)
        ensures
            size == (Size { w: ZERO, h: ZERO }),
    {
        Size { w: ZERO, h: ZERO }
    }
}

/// A point, or an offset from one.
#[derive(Clone, Copy, Debug, PartialEq, Eq, Structural)]
pub struct Point {
    pub x: Single,
    pub y: Single,
}

impl Default for Point {
    /// The origin.
    fn default() -> (point: Point)
        ensures
            point == (Point { x: ZERO, y: ZERO }),
    {
        Point { x: ZERO, y: ZERO }
    }
}

/// The offset from a sprite's top-left corner to the anchor that its
/// entity's position names.
pub type Pivot = Point;

/// How an entity looks: a filled rectangle of a colour and a size, hung on
/// its pivot.
#[derive(Clone, Copy, Debug, PartialEq, Eq, Structural)]
pub struct Sprite {
    pub color: Color,
    pub size: Size,
    pub pivot: Pivot,
}

impl Default for Sprite {
    /// Opaque black, no extent, pivot at the corner.
    fn default() -> (sprite: Sprite)
        ensures
            sprite == (Sprite {
                color: Color { r: ZERO, g: ZERO, b: ZERO, a: ONE },
                size: Size { w: ZERO, h: ZERO },
                pivot: Point { x: ZERO, y: ZERO },
            }),
    {
        Sprite {
            color: Color { r: ZERO, g: ZERO, b: ZERO, a: ONE },
            size: Size { w: ZERO, h: ZERO },
            pivot: Point { x: ZERO, y: ZERO },
        }
    }
}

/// A filled rectangle to draw: its colour by channels, its top-left corner
/// and its extent.
#[derive(Clone, Copy, Debug, PartialEq, Eq)]
pub struct Rectangle {
    pub color: [Single; 4],
    pub origin: Point,
    pub size: Size,
}

/// What one tick draws: the colour the surface is cleared to, then the
/// rectangles in the order given.
#[derive(Debug, PartialEq, Eq)]
pub struct Frame {
    pub background: [Single; 4],
    pub rectangles: Vec<Rectangle>,
}

/// The channels of the colour that every frame is cleared to: opaque white.
pub open spec fn background() -> Seq<Single> {
    seq![ONE, ONE, ONE, ONE]
}

/// Plans the frame of a tick: one rectangle for every entity that has a
/// position and a sprite, its corner found with the subtraction that the
/// system was given.
pub struct RenderSystem<S> {
    pub sub: S,
}

impl<S: Fn(Single, Single) -> Single> RenderSystem<S> {
    /// The subtraction accepts every pair of numbers.
    pub open spec fn total(&self) -> bool {
        forall|a: Single, b: Single| call_requires(self.sub, (a, b))
    }

    /// `rectangle` shows `sprite` at `position`: it has the sprite's colour
    /// and size, and its corner is what the subtraction gave for the
    /// position less the pivot, in each coordinate.
    pub open spec fn places(&self, position: Position, sprite: Sprite, rectangle: Rectangle) -> bool {
        &&& rectangle.color@ == sprite.color.channels()
        &&& call_ensures(self.sub, (position.x, sprite.pivot.x), rectangle.origin.x)
        &&& call_ensures(self.sub, (position.y, sprite.pivot.y), rectangle.origin.y)
        &&& rectangle.size == sprite.size
    }

    /// `frame` shows `world`: it is cleared to the background colour and
    /// holds one rectangle for each entity with a position and a sprite, in
    /// ascending order of their ids.
    pub open spec fn depicts(&self, world: WorldView, frame: Frame) -> bool {
        let ids = ascending(world.drawable(), world.entities);
        &&& frame.background@ == background()
        &&& frame.rectangles@.len() == ids.len()
        &&& forall|k: int|
            0 <= k < ids.len() ==> self.places(
                world.positions[ids[k]],
                world.sprites[ids[k]],
                #[trigger] frame.rectangles@[k],
            )
    }

    /// `frame` is what a tick on `world` draws: nothing without an event,
    /// and else a frame that shows the world.
    pub open spec fn drew(&self, world: WorldView, frame: Option<Frame>) -> bool {
        match frame {
            None => world.window_event is None,
            Some(frame) => world.window_event is Some && self.depicts(world, frame),
        }
    }

    /// Creates the system around the subtraction `sub`.
    pub fn new(sub: S) -> (system: Self)
        ensures
            system.sub == sub,
    {
        RenderSystem { sub }
    }

    /// Plans the frame for `world` as it stands: none if the tick has no
    /// event, and else the frame to draw on that event's surface.
    pub fn run(&self, world: &World) -> (frame: Option<Frame>)
        requires
            self.total(),
            world.wf(),
        ensures
            self.drew(world@, frame),
    {
        if world.window_event().event.is_none() {
            return None;
        }
        let positions = world.positions();
        let sprites = world.sprites();
        let ids = join(positions, sprites);
        proof {
            lemma_joined(
                ids@,
                world@.drawable(),
                smaller(positions.limit(), sprites.limit()),
                world@.entities,
            );
        }
        let ghost drawn = ascending(world@.drawable(), world@.entities);
        let mut rectangles: Vec<Rectangle> = Vec::new();
        let mut k: usize = 0;
        while k < ids.len()
            invariant
                k <= ids.len(),
                self.total(),
                positions@ == world@.positions,
                sprites@ == world@.sprites,
                drawn.len() == ids@.len(),
                forall|j: int| 0 <= j < ids@.len() ==> drawn[j] == #[trigger] ids@[j],
                forall|j: int|
                    0 <= j < ids@.len() ==> world@.drawable().contains(#[trigger] ids@[j] as int),
                rectangles@.len() == k,
                forall|j: int|
                    0 <= j < k ==> self.places(
                        world@.positions[drawn[j]],
                        world@.sprites[drawn[j]],
                        #[trigger] rectangles@[j],
                    ),
            decreases ids.len() - k,
        {
            let id = ids[k];
            assert(world@.drawable().contains(ids@[k as int] as int));
            let position = *positions.get(id).unwrap();
            let sprite = *sprites.get(id).unwrap();
            let rectangle = Rectangle {
                color: sprite.color.to_array(),
                origin: Point {
                    x: (self.sub)(position.x, sprite.pivot.x),
                    y: (self.sub)(position.y, sprite.pivot.y),
                },
                size: sprite.size,
            };
            rectangles.push(rectangle);
            k += 1;
        }
        let background = [ONE, ONE, ONE, ONE];
        assert(background@ =~= self::background());
        Some(Frame { background, rectangles })
    }
}

/// Without an event in the slot nothing is drawn, whatever the world holds.
pub proof fn lemma_no_event_no_frame<S: Fn(Single, Single) -> Single>(
    render: RenderSystem<S>,
    world: WorldView,
    frame: Option<Frame>,
)
    requires
        render.drew(world, frame),
        world.window_event is None,
    ensures
        frame is None,
{
}

/// The entities that a frame shows are those with a position and a sprite,
/// and no others: one that lacks either is never drawn.
pub proof fn lemma_drawn_have_both(world: WorldView)
    requires
        world.wf(),
    ensures
        forall|id: int|
            ascending(world.drawable(), world.entities).contains(id) <==> (
            world.positions.dom().contains(id) && world.sprites.dom().contains(id)),
{
    lemma_ascending_members(world.drawable(), world.entities);
    assert forall|id: int|
        ascending(world.drawable(), world.entities).contains(id) <==> (
        world.positions.dom().contains(id) && world.sprites.dom().contains(id)) by {
        if world.positions.dom().contains(id) && world.sprites.dom().contains(id) {
            assert(world.drawable().contains(id));
        }
        if ascending(world.drawable(), world.entities).contains(id) {
            assert(world.drawable().contains(id));
        }
    }
}

} // verus!
