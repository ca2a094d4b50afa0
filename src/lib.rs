//! A constrained box-layout engine for widget trees drawn on a character grid.
//!
//! A container offers each child a minimum and a maximum size, the child settles on a size
//! between them, and the container places its children: fixed children take what they ask
//! for, flexible children share the leftover length in proportion to their factors, and
//! what is still left is spread as gaps by the main-axis alignment.

use vstd::prelude::*;

pub mod alignment;
mod arith;
pub mod axis;
pub mod box_constraints;
pub mod flex;
pub mod flex_model;
pub mod geometry;
pub mod size;
pub mod spacing;
pub mod text;
pub mod widget;
pub mod widget_pod;
pub mod window;

pub use alignment::{CrossAxisAlignment, MainAxisAlignment};
pub use axis::Axis;
pub use box_constraints::BoxConstraints;
pub use flex::{Child, Flex, FlexParams};
pub use geometry::{Point, Rect, Vec2};
pub use size::Size;
pub use spacing::Spacing;
pub use text::Text;
pub use widget::{Data, DataWrapper, Region, Widget};
pub use widget_pod::WidgetPod;
pub use window::Window;

