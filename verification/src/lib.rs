//! Terminal video rendering: frames of pixels become text in one of several
//! encodings (true-colour half blocks, braille cells, SIXEL bands), together
//! with the colour palettes, palette lookup tables and subtitle handling that
//! the player uses.

pub mod text;
pub mod sixel;
pub mod video;
pub mod lowres;
pub mod hires;
pub mod braille;
pub mod braillebw;
pub mod braillergb;
pub mod the_numbers;
pub mod sixelbw;
pub mod sixelbw2;
pub mod sixelrgb;
pub mod sixelmp;
pub mod sixelmps;
pub mod palette;
pub mod term;
pub mod subtitles;
