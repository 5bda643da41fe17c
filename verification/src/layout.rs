//! How many cards the heart is made of, by viewport width.
use vstd::prelude::*;

verus! {

/// Viewports at most this wide (in CSS pixels) count as narrow.
pub const NARROW_VIEWPORT_MAX_WIDTH: u32 = 430;

/// Cards per layer on a narrow viewport.
pub const NARROW_PER_LAYER: usize = 36;

/// Layers on a narrow viewport.
pub const NARROW_LAYERS: usize = 4;

/// Cards per layer on a wide viewport.
pub const WIDE_PER_LAYER: usize = 42;

/// Layers on a wide viewport.
pub const WIDE_LAYERS: usize = 5;

/// The shape of the deck: `layers` rings of `per_layer` cards each.
#[derive(Clone, Copy, Debug, PartialEq, Eq, Structural)]
pub struct CardLayout {
    pub per_layer: usize,
    pub layers: usize,
}

impl CardLayout {
    /// A layout of `layers` rings with `per_layer` cards each.
    pub fn new(per_layer: usize, layers: usize) -> (layout: CardLayout)
        ensures
            layout.per_layer == per_layer,
            layout.layers == layers,
    {
        CardLayout { per_layer, layers }
    }

    /// The number of cards in the deck, as a mathematical integer.
    pub open spec fn total(self) -> int {
        self.per_layer * self.layers
    }
}

/// The layout for a viewport `width` CSS pixels wide, where `width` is the
/// viewport width rounded up to a whole pixel.
///
/// Rounding up keeps the comparison exact: a real width `w` is at most
/// `NARROW_VIEWPORT_MAX_WIDTH` exactly when its ceiling is.
pub open spec fn layout_for_width(width: int) -> CardLayout {
    if width <= NARROW_VIEWPORT_MAX_WIDTH {
        CardLayout { per_layer: NARROW_PER_LAYER, layers: NARROW_LAYERS }
    } else {
        CardLayout { per_layer: WIDE_PER_LAYER, layers: WIDE_LAYERS }
    }
}

/// Narrow viewports get fewer cards: 36 per layer in 4 layers up to
/// 430 CSS pixels, 42 per layer in 5 layers beyond.
pub fn card_layout_for_width(width: u32) -> (layout: CardLayout)
    ensures
        layout == layout_for_width(width as int),
{
    if width <= NARROW_VIEWPORT_MAX_WIDTH {
        CardLayout::new(NARROW_PER_LAYER, NARROW_LAYERS)
    } else {
        CardLayout::new(WIDE_PER_LAYER, WIDE_LAYERS)
    }
}

/// Narrow viewports use fewer cards: a narrower viewport never gets more
/// cards than a wider one, and a narrow viewport gets strictly fewer than a
/// wide one.
pub proof fn lemma_narrower_viewport_fewer_cards(narrower: int, wider: int)
    requires
        narrower <= wider,
    ensures
        layout_for_width(narrower).total() <= layout_for_width(wider).total(),
        narrower <= NARROW_VIEWPORT_MAX_WIDTH < wider ==> layout_for_width(narrower).total()
            < layout_for_width(wider).total(),
{
    assert(NARROW_PER_LAYER * NARROW_LAYERS == 144);
    assert(WIDE_PER_LAYER * WIDE_LAYERS == 210);
}

} // verus!
