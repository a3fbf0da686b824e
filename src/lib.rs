//! Pixel-processing core of a pixel-art editor: colours, blend-mode
//! identifiers, integer geometry, RGBA8 pixel buffers, the layer-drawing
//! loop of the compositor and a scanline flood fill.
pub mod blend_mode;
pub mod color;
pub mod color_replace;
pub mod composite;
pub mod cv;
pub mod geometry;
mod count;
pub mod image;
pub mod json;
mod link;
mod scan;
pub mod transformation;
pub mod trim;
mod text;

pub use blend_mode::BlendMode;
pub use color::Color;
pub use geometry::{EdgeInsets, Point, Rect, Size};
pub use color_replace::{
    flood_fill, flood_fill_with_reference, flood_fill_within, mask_image, replace_color, FillError,
};
pub use composite::{composite_pixel, draw_blended, draw_porter_duff};
pub use image::Image;
pub use trim::ImageError;
