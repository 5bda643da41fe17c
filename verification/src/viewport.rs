//! Keeping the canvas in step with the window.
//!
//! Before each frame the host measures the window and asks the viewport
//! what has to change: the deck is dealt anew when the layout changes, and
//! the canvases are resized (and the backdrop repainted) when their size in
//! device pixels changes.
use vstd::prelude::*;
use crate::layout::{CardLayout, NARROW_VIEWPORT_MAX_WIDTH, card_layout_for_width, layout_for_width};

verus! {

/// What the viewport last measured.
#[derive(Clone, Copy, Debug, PartialEq, Eq, Structural)]
pub struct Viewport {
    /// The layout the current deck was dealt for.
    pub layout: CardLayout,
    /// The canvas width in device pixels.
    pub width: u32,
    /// The canvas height in device pixels.
    pub height: u32,
}

/// What the host has to do after a measurement.
#[derive(Clone, Copy, Debug, PartialEq, Eq, Structural)]
pub struct ResizeAction {
    /// Deal the deck anew for the new layout.
    pub rebuild_cards: bool,
    /// Resize both canvases to the new size and repaint the backdrop.
    pub resize_canvas: bool,
}

/// A viewport that has measured nothing yet: an empty layout and a canvas
/// of zero size.
pub open spec fn initial_viewport() -> Viewport {
    Viewport { layout: CardLayout { per_layer: 0, layers: 0 }, width: 0, height: 0 }
}

/// What a viewport remembers after measuring a window `css_width` CSS
/// pixels wide and a canvas of `width` by `height` device pixels.
pub open spec fn after_resize(css_width: int, width: u32, height: u32) -> Viewport {
    Viewport { layout: layout_for_width(css_width), width, height }
}

/// What has to change when viewport `v` takes that measurement.
pub open spec fn resize_action(v: Viewport, css_width: int, width: u32, height: u32) -> ResizeAction {
    ResizeAction {
        rebuild_cards: v.layout != layout_for_width(css_width),
        resize_canvas: !(v.width == width && v.height == height),
    }
}

impl Viewport {
    /// A viewport that has measured nothing yet.
    pub fn new() -> (viewport: Viewport)
        ensures
            viewport == initial_viewport(),
    {
        Viewport { layout: CardLayout::new(0, 0), width: 0, height: 0 }
    }

    /// Takes a measurement: the window is `css_width` CSS pixels wide
    /// (rounded up to a whole pixel) and the canvas should be `width` by
    /// `height` device pixels. Returns what has to change, and remembers the
    /// new layout and size.
    pub fn resize(&mut self, css_width: u32, width: u32, height: u32) -> (action: ResizeAction)
        ensures
            *final(self) == after_resize(css_width as int, width, height),
            action == resize_action(*old(self), css_width as int, width, height),
    {
        let layout = card_layout_for_width(css_width);
        let rebuild_cards = self.layout != layout;
        if rebuild_cards {
            self.layout = layout;
        }
        if self.width == width && self.height == height {
            return ResizeAction { rebuild_cards, resize_canvas: false };
        }
        self.width = width;
        self.height = height;
        ResizeAction { rebuild_cards, resize_canvas: true }
    }
}


/// Measuring the same window twice in a row asks for nothing the second
/// time: the deck is not dealt again and the canvas is not resized again.
pub proof fn lemma_resize_settles(v: Viewport, css_width: int, width: u32, height: u32)
    ensures
        ({
            let settled = after_resize(css_width, width, height);
            &&& resize_action(settled, css_width, width, height) == (ResizeAction {
                rebuild_cards: false,
                resize_canvas: false,
            })
            &&& after_resize(css_width, width, height) == settled
        }),
{
}

/// The first measurement always deals the deck, and resizes the canvas
/// unless the canvas is to have zero size.
pub proof fn lemma_first_measurement_deals(css_width: int, width: u32, height: u32)
    ensures
        resize_action(initial_viewport(), css_width, width, height).rebuild_cards,
        resize_action(initial_viewport(), css_width, width, height).resize_canvas
            == !(width == 0 && height == 0),
{
}

/// Between two measurements the deck is dealt anew exactly when the
/// window crossed the narrow width, one way or the other, and the canvas is
/// resized exactly when its size changed.
pub proof fn lemma_rebuild_on_crossing(
    css_width: int,
    width: u32,
    height: u32,
    next_css_width: int,
    next_width: u32,
    next_height: u32,
)
    ensures
        ({
            let action = resize_action(
                after_resize(css_width, width, height),
                next_css_width,
                next_width,
                next_height,
            );
            &&& action.rebuild_cards == ((css_width <= NARROW_VIEWPORT_MAX_WIDTH) != (next_css_width
                <= NARROW_VIEWPORT_MAX_WIDTH))
            &&& action.resize_canvas == (width != next_width || height != next_height)
        }),
{
}

} // verus!
