use love::layout::CardLayout;
use love::viewport::{ResizeAction, Viewport};

#[test]
fn first_measurement_deals_and_resizes() {
    let mut viewport = Viewport::new();
    assert_eq!(viewport.layout, CardLayout::new(0, 0));
    let action = viewport.resize(390, 780, 1440);
    assert_eq!(action, ResizeAction { rebuild_cards: true, resize_canvas: true });
    assert_eq!(viewport.layout, CardLayout::new(36, 4));
    assert_eq!((viewport.width, viewport.height), (780, 1440));
}

#[test]
fn same_measurement_twice_asks_for_nothing() {
    let mut viewport = Viewport::new();
    viewport.resize(1280, 1280, 720);
    let action = viewport.resize(1280, 1280, 720);
    assert_eq!(action, ResizeAction { rebuild_cards: false, resize_canvas: false });
}

#[test]
fn crossing_the_narrow_width_deals_again() {
    let mut viewport = Viewport::new();
    viewport.resize(500, 1000, 800);
    let action = viewport.resize(420, 1000, 800);
    assert_eq!(action, ResizeAction { rebuild_cards: true, resize_canvas: false });
    assert_eq!(viewport.layout, CardLayout::new(36, 4));
    let action = viewport.resize(431, 862, 800);
    assert_eq!(action, ResizeAction { rebuild_cards: true, resize_canvas: true });
    assert_eq!(viewport.layout, CardLayout::new(42, 5));
}

#[test]
fn resizing_within_one_layout_keeps_the_deck() {
    let mut viewport = Viewport::new();
    viewport.resize(800, 800, 600);
    let action = viewport.resize(900, 900, 600);
    assert_eq!(action, ResizeAction { rebuild_cards: false, resize_canvas: true });
    assert_eq!((viewport.width, viewport.height), (900, 600));
}

#[test]
fn zero_sized_first_measurement_only_deals() {
    let mut viewport = Viewport::new();
    let action = viewport.resize(0, 0, 0);
    assert_eq!(action, ResizeAction { rebuild_cards: true, resize_canvas: false });
}
