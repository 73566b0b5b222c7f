//! What the renderer is told about the window and the way to draw.

use vstd::prelude::*;

verus! {

/// The size of the window and four switches of the renderer.
#[derive(Clone, Copy, PartialEq, Eq, Debug, Structural)]
pub struct DisplayState {
    pub window_width: u32,
    pub window_height: u32,
    pub is_enabled_depth_test: bool,
    pub is_enabled_blend: bool,
    pub is_enabled_wireframe: bool,
    pub is_enabled_culling: bool,
}

impl DisplayState {
    /// A window of the given width and height, with every switch off.
    pub fn new(window_size_wh: (u32, u32)) -> (state: DisplayState)
        ensures
            state == (DisplayState {
                window_width: window_size_wh.0,
                window_height: window_size_wh.1,
                is_enabled_depth_test: false,
                is_enabled_blend: false,
                is_enabled_wireframe: false,
                is_enabled_culling: false,
            }),
    {
        DisplayState {
            window_width: window_size_wh.0,
            window_height: window_size_wh.1,
            is_enabled_depth_test: false,
            is_enabled_blend: false,
            is_enabled_wireframe: false,
            is_enabled_culling: false,
        }
    }

    /// Takes a new size for the window and leaves the switches as they are.
    pub fn set_window_size(&mut self, width: u32, height: u32)
        ensures
            *final(self) == (DisplayState {
                window_width: width,
                window_height: height,
                ..*old(self)
            }),
    {
        self.window_width = width;
        self.window_height = height;
    }
}

} // verus!
