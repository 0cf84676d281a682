//! A tile-based scene compositor and collision engine for a grid-world
//! puzzle.
//!
//! The library keeps an off-screen canvas ([`canvas`]), cuts a bitmap into an
//! atlas of tiles with a colour key for transparency ([`bitmap`], [`tiles`]),
//! reads the meaning of grid symbols from JSON descriptors ([`json`],
//! [`entity`]), composites sprites onto the canvas ([`sprite`]), finds the
//! wall cells that a mover would run into and decides whether its mask lets
//! it pass ([`collision`]), and holds the rules of play: levels, masks, the
//! treasure and the tick ([`actors`], [`level`], [`game`]).
//!
//! The library reads no file and polls no key. A caller reads the bytes of
//! the atlas, adds the files that a level asks for to the resources
//! ([`resources`]), hands one input event to [`game::Game::tick`] per tick,
//! and presents the canvas that [`game::Game::render`] paints.

pub mod actors;
pub mod bitmap;
pub mod canvas;
pub mod collision;
pub mod entity;
pub mod error;
pub mod game;
pub mod geometry;
pub mod json;
pub mod level;
pub mod math;
pub mod resources;
pub mod sprite;
pub mod tiles;
