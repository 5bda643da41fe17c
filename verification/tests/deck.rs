use love::deck::{card_slots, CardSlot, CARD_COLOR_COUNT, CARD_TEXT_COUNT};
use love::layout::CardLayout;

#[test]
fn deck_has_one_slot_per_card_in_deck_order() {
    let slots = card_slots(CardLayout::new(36, 4));
    assert_eq!(slots.len(), 144);
    for (k, slot) in slots.iter().enumerate() {
        assert_eq!(slot.index, k);
        assert_eq!(slot.layer, k / 36);
        assert_eq!(slot.position, k % 36);
    }
}

#[test]
fn deck_slot_values_for_a_known_card() {
    let slots = card_slots(CardLayout::new(42, 5));
    assert_eq!(
        slots[45],
        CardSlot {
            index: 45,
            layer: 1,
            position: 3,
            color: (45 * 5 + 1) % 6,
            text: 5,
            wall_column: 3,
            wall_row: 6,
            starts_left: false,
            start_row: (45 * 37) % 210,
        }
    );
    assert_eq!(slots[45].color, 4);
    assert_eq!(slots[45].start_row, 195);
}

#[test]
fn deck_first_card() {
    let slots = card_slots(CardLayout::new(36, 4));
    assert_eq!(
        slots[0],
        CardSlot {
            index: 0,
            layer: 0,
            position: 0,
            color: 0,
            text: 0,
            wall_column: 0,
            wall_row: 0,
            starts_left: true,
            start_row: 0,
        }
    );
}

#[test]
fn deck_values_stay_in_their_tables() {
    let slots = card_slots(CardLayout::new(42, 5));
    for slot in &slots {
        assert!(slot.color < CARD_COLOR_COUNT);
        assert!(slot.text < CARD_TEXT_COUNT);
        assert!(slot.wall_column < 7);
        assert!(slot.start_row < 210);
        assert!(slot.layer < 5);
        assert!(slot.position < 42);
    }
}

#[test]
fn empty_layouts_deal_no_cards() {
    assert!(card_slots(CardLayout::new(0, 0)).is_empty());
    assert!(card_slots(CardLayout::new(5, 0)).is_empty());
    assert!(card_slots(CardLayout::new(0, 5)).is_empty());
}

#[test]
fn every_ring_position_is_dealt_once() {
    let slots = card_slots(CardLayout::new(6, 3));
    for layer in 0..3 {
        for position in 0..6 {
            let matching = slots
                .iter()
                .filter(|s| s.layer == layer && s.position == position)
                .count();
            assert_eq!(matching, 1);
        }
    }
}
