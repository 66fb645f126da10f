//! Graphics and retained GUI building blocks.
use vstd::prelude::*;

pub mod context;
pub mod decor;
pub mod dispatch;
pub mod generation;
pub mod geom;
pub mod graphics;
pub mod gui;
pub mod handle;
pub mod image;
pub mod pipeline;
pub mod paint;
pub mod built;
pub mod props;
pub mod dither;
pub mod drawbuf;
pub mod dto;
pub mod event;
pub mod scene;
pub mod scroll;
pub mod slider;
pub mod slotmap;
pub mod widgets;

verus! {

} // verus!
