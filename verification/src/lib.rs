//! A windowed-list viewport for fixed-size character rectangles, and the
//! directory-navigation state behind a file picker.
//!
//! The heart of the crate is [`viewport::compute`]: given rows of varying
//! height, the rectangle height, and the cursor state remembered from the
//! previous frame, it picks the contiguous window of rows to show so that the
//! selected row is always visible and scrolling moves as little as possible.
//! [`render::FileList`] paints such a window into a [`buffer::Buffer`], and
//! [`dialog::FileDialog`] keeps the path and selection state of the picker.
#![allow(unused_imports)]

use vstd::prelude::*;

pub mod buffer;
pub mod dialog;
pub mod render;
pub mod row;
pub mod style;
pub mod viewport;
pub mod width;
