//! Escape-time rendering of the Mandelbrot set, with the arithmetic left to the caller.
//!
//! The library decides which pixel stands where in the buffer, how long an orbit is
//! followed, and which shade of gray an escape time gets. What a point of the plane is,
//! and how it is squared and measured, is the business of a [`Point`].
//!
//! - [`point`]: the operations that the library asks of a point of the plane.
//! - [`escape`]: the escape time of a point, and what holds of it.
//! - [`render`]: the picture of a rectangle, one gray byte for each pixel.
//! - [`token`], [`number`], [`text`]: values read from text, integers among them.
//! - [`pair`]: two values with a separator between them, such as `"1000x750"`.
//! - [`encode`]: the picture as the bytes of a PNG file.

pub mod encode;
pub mod escape;
pub mod number;
pub mod pair;
pub mod point;
pub mod render;
pub mod text;
pub mod token;

pub use encode::{encode_image, EncodeError};
pub use escape::escape_time;
pub use pair::{parse_pair, split_pair};
pub use point::Point;
pub use render::{buffer_fits, intensity, render, LIMIT};
pub use token::Token;
