//! Animated fire from gradient noise, in exact integer arithmetic.
//!
//! A lattice of unit gradients is laid over the image, one gradient per
//! cell corner.  Every pixel blends the four gradients of its cell with a
//! quintic fade curve, and the blended value is mapped onto a
//! black-red-orange-yellow palette.  All quantities are integers or exact
//! fractions, so every contract below states the value that is computed,
//! not an approximation of it.
//!
//! * [`lattice`]: cell size, corner counts, position of a pixel in its cell
//! * [`fade`]: the quintic fade curve
//! * [`field`]: the directions of the gradients, and how they turn
//! * [`gradient`]: gradients as vectors, and the grid that holds them
//! * [`sampler`]: noise value of a pixel
//! * [`color`]: noise value to colour
//! * [`render`]: a whole frame as packed RGB bytes
//! * [`driver`]: what the animation loop does on each tick

pub mod color;
pub mod driver;
pub mod fade;
pub mod field;
pub mod gradient;
pub mod lattice;
pub mod render;
pub mod sampler;
