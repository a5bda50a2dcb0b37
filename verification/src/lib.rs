//! Recolouring of PNG map tiles on request.
//!
//! A tile is a PNG image addressed by a path such as `zoom/x/y`. A client
//! asks for a tile and may add a mask directive that names colours to be
//! made transparent or repainted. This library holds the decisions of such
//! a service and proves them against their contracts:
//!
//! - [`mask`] reads a directive into a colour table;
//! - [`index`] keeps the set of tiles that a local volume held at startup;
//! - [`source`] decides, for a tile, what is to be fetched and within what
//!   bounds;
//! - [`recolor`] repaints the pixels of a tile and writes them as PNG;
//! - [`serve`] decides what a request is answered with.
//!
//! Reading files and talking to the network are left to the caller, who
//! hands in the bytes. Three crates do work that is taken on trust here,
//! each behind a private function that states what is believed of it:
//! `image` reads and writes PNG, `bloomfilter` holds the index, and `url`
//! resolves a tile's name against the base URL of a remote origin.

pub mod index;
pub mod mask;
pub mod recolor;
pub mod serve;
pub mod source;
mod text;
