use love::layout::{card_layout_for_width, CardLayout};

#[test]
fn uses_fewer_cards_on_narrow_mobile_viewports() {
    assert_eq!(card_layout_for_width(390), CardLayout::new(36, 4));
    assert_eq!(card_layout_for_width(430), CardLayout::new(36, 4));
    assert_eq!(card_layout_for_width(431), CardLayout::new(42, 5));
}

#[test]
fn layout_new_keeps_its_fields() {
    let layout = CardLayout::new(7, 3);
    assert_eq!(layout.per_layer, 7);
    assert_eq!(layout.layers, 3);
}

#[test]
fn layout_edges_of_the_width_range() {
    assert_eq!(card_layout_for_width(0), CardLayout::new(36, 4));
    assert_eq!(card_layout_for_width(u32::MAX), CardLayout::new(42, 5));
}

#[test]
fn narrow_layout_has_fewer_cards_than_wide() {
    let narrow = card_layout_for_width(430);
    let wide = card_layout_for_width(431);
    assert_eq!(narrow.per_layer * narrow.layers, 144);
    assert_eq!(wide.per_layer * wide.layers, 210);
    assert!(narrow.per_layer * narrow.layers < wide.per_layer * wide.layers);
}
