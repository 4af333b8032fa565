//! An image-compositing core.
//!
//! The crate has three parts, leaves first:
//!
//! | Module | Description |
//! | ------ | ----------- |
//! | [`pixel`] | Pixel values and the straight-alpha blending algebra that combines them. |
//! | [`source`] | Rectangular pixel grids: the read capability, the write capability, and the concrete [`Image2D`](source::Image2D) grid. |
//! | [`compositor`] | Applying sources onto a mutable canvas in order, and freezing the canvas into a reusable source. |

pub mod compositor;
pub mod pixel;
pub mod source;
