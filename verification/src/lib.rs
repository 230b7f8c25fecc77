//! Cylindrical-projection mosaics of calibrated rover camera images.
//!
//! A mosaic is built in two steps. First the geometry of the map is fixed
//! from what all the cameras see ([`mapcontext`]). Then every image is
//! painted on the map, either by carrying each of its pixels to its place on
//! the map ([`mosaic`]), or by letting each pixel of the map pull its colour
//! from the image ([`anaglyph`]); [`projection`] offers the two behind one
//! interface. Both paint quads, as pairs of triangles with interpolated
//! colour ([`geometry`], [`drawable`]); images of a stereo pair go to
//! separate colour channels ([`color`]).
//!
//! The library works on whole numbers throughout. Places on the map are
//! 64-bit fixed-point coordinates of 1/1024 pixel, angles are millionths of
//! a degree, colours are 16-bit samples. Every direction has its exact place
//! on every map, however wide; coordinates reach 2^33 pixels either way.
//! Camera models work in floating point and stay outside: the library takes
//! the directions and places they produce as tables of fixed-point values.
//!
//! The remaining modules hold the rules of the calibration of single
//! cameras ([`m20`], [`msl`], [`image`]) and plain data ([`enums`],
//! [`nsyt`], [`error`]).

pub mod anaglyph;
pub mod arith;
pub mod color;
pub mod drawable;
pub mod enums;
pub mod error;
pub mod geometry;
pub mod image;
pub mod m20;
pub mod mapcontext;
pub mod mosaic;
pub mod msl;
pub mod nsyt;
pub mod projection;
