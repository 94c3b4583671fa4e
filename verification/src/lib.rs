//! The simulation core of a small 2D game client: component stores, a world,
//! and the systems that advance it once per tick.
//!
//! A tick takes in what the window reported, moves the entities, and plans
//! the frame to draw. The core opens no window and draws nothing itself: the
//! caller polls the window, hands each poll to [`dispatcher::Dispatcher`],
//! and draws the frame that comes back.
//!
//! Numbers are held by their IEEE-754 bit patterns and the core does no
//! floating-point arithmetic of its own. The systems that need an operation
//! (an addition, a subtraction, a narrowing from double to single precision)
//! are built around the one that the caller supplies, and say of their
//! results exactly what that operation gave.

pub mod dispatcher;
pub mod input;
pub mod movement;
pub mod render;
pub mod storage;
pub mod types;
pub mod world;
