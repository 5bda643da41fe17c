//! The deck: which card sits where, and what each card is dealt.
//!
//! Every card has a deck index. The index fixes the card's ring and its
//! position on the ring, its text and colours, its place on the wall the
//! cards scatter to, the side of the screen it flies in from, and the row
//! it starts on. The host turns these integers into screen geometry.
use vstd::prelude::*;
use crate::layout::CardLayout;

verus! {

/// The number of card texts the deck cycles through.
pub const CARD_TEXT_COUNT: usize = 20;

/// The number of colour pairs (fill, text) the deck cycles through.
pub const CARD_COLOR_COUNT: usize = 6;

/// A card's colour is picked as `(index * COLOR_STRIDE + layer) % CARD_COLOR_COUNT`.
pub const COLOR_STRIDE: usize = 5;

/// The wall the cards scatter to is this many columns wide.
pub const WALL_COLUMNS: usize = 7;

/// A card's start row is `(index * START_ROW_STRIDE) % total`.
pub const START_ROW_STRIDE: usize = 37;

/// What the deck deals to one card.
#[derive(Clone, Copy, Debug, PartialEq, Eq, Structural)]
pub struct CardSlot {
    /// The card's deck index, `layer * per_layer + position`.
    pub index: usize,
    /// The ring the card belongs to.
    pub layer: usize,
    /// The card's position on its ring.
    pub position: usize,
    /// Which colour pair the card wears.
    pub color: usize,
    /// Which text the card shows.
    pub text: usize,
    /// The card's column on the wall.
    pub wall_column: usize,
    /// The card's row on the wall.
    pub wall_row: usize,
    /// Whether the card flies in from the left edge (else from the right).
    pub starts_left: bool,
    /// The card's start row: its start height is `start_row / total` of the
    /// start band.
    pub start_row: usize,
}

/// `slot` is what the deck deals to the card with index `k` in `layout`.
pub open spec fn slot_matches(layout: CardLayout, k: int, slot: CardSlot) -> bool {
    let per_layer = layout.per_layer as int;
    &&& slot.index == k
    &&& slot.layer == k / per_layer
    &&& slot.position == k % per_layer
    &&& slot.color == (k * COLOR_STRIDE + k / per_layer) % (CARD_COLOR_COUNT as int)
    &&& slot.text == k % (CARD_TEXT_COUNT as int)
    &&& slot.wall_column == k % (WALL_COLUMNS as int)
    &&& slot.wall_row == k / (WALL_COLUMNS as int)
    &&& slot.starts_left == (k % 2 == 0)
    &&& slot.start_row == (k * START_ROW_STRIDE) % layout.total()
}

/// The deck can be dealt without overflow: the arithmetic on the largest
/// index stays within `usize`.
pub open spec fn dealable(layout: CardLayout) -> bool {
    layout.total() * START_ROW_STRIDE <= usize::MAX
}

/// Deals the whole deck for `layout`, in deck order: ring by ring, and
/// along each ring position by position.
pub fn card_slots(layout: CardLayout) -> (slots: Vec<CardSlot>)
    requires
        dealable(layout),
    ensures
        slots.len() == layout.total(),
        forall|k: int| 0 <= k < slots.len() ==> slot_matches(layout, k, #[trigger] slots[k]),
        forall|k: int| 0 <= k < slots.len() ==> (#[trigger] slots[k]).index == k,
        forall|k: int|
            0 <= k < slots.len() ==> (#[trigger] slots[k]).layer * layout.per_layer + slots[k].position == k
                && slots[k].position < layout.per_layer,
        forall|k: int| 0 <= k < slots.len() ==> (#[trigger] slots[k]).text == k % (CARD_TEXT_COUNT as int),
        forall|k: int|
            0 <= k < slots.len() ==> (#[trigger] slots[k]).color == (k * COLOR_STRIDE + slots[k].layer) % (
            CARD_COLOR_COUNT as int),
        forall|k: int|
            0 <= k < slots.len() ==> (#[trigger] slots[k]).wall_row * WALL_COLUMNS + slots[k].wall_column == k
                && slots[k].wall_column < WALL_COLUMNS,
        forall|k: int| 0 <= k < slots.len() ==> (#[trigger] slots[k]).starts_left == (k % 2 == 0),
        forall|k: int|
            0 <= k < slots.len() ==> (#[trigger] slots[k]).start_row == (k * START_ROW_STRIDE) % layout.total(),
        forall|t: int| 0 <= t < CARD_TEXT_COUNT && t < slots.len() ==> (#[trigger] slots[t]).text == t,
        forall|k: int|
            0 <= k && k + 1 < slots.len() ==> (#[trigger] slots[k]).starts_left != slots[k + 1].starts_left,
        slots.len() > 0 ==> slots[0].starts_left,
{
    let per_layer: usize = layout.per_layer;
    let layers: usize = layout.layers;
    let ghost total = layout.total();
    let mut slots: Vec<CardSlot> = Vec::new();
    let mut index: usize = 0;
    let mut layer: usize = 0;
    while layer < layers
        invariant
            per_layer == layout.per_layer,
            layers == layout.layers,
            total == layout.total(),
            dealable(layout),
            layer <= layers,
            index == layer * per_layer,
            slots.len() == index,
            forall|k: int| 0 <= k < slots.len() ==> slot_matches(layout, k, #[trigger] slots[k]),
        decreases layers - layer,
    {
        let mut position: usize = 0;
        while position < per_layer
            invariant
                per_layer == layout.per_layer,
                layers == layout.layers,
                total == layout.total(),
                dealable(layout),
                layer < layers,
                position <= per_layer,
                index == layer * per_layer + position,
                slots.len() == index,
                forall|k: int| 0 <= k < slots.len() ==> slot_matches(layout, k, #[trigger] slots[k]),
            decreases per_layer - position,
        {
            proof {
                assert(index < total) by (nonlinear_arith)
                    requires
                        index == layer * per_layer + position,
                        position < per_layer,
                        layer < layers,
                        total == per_layer * layers,
                ;
                vstd::arithmetic::div_mod::lemma_fundamental_div_mod_converse(
                    index as int,
                    per_layer as int,
                    layer as int,
                    position as int,
                );
            }
            let deck_size: usize = per_layer * layers;
            let slot = CardSlot {
                index,
                layer,
                position,
                color: (index * COLOR_STRIDE + layer) % CARD_COLOR_COUNT,
                text: index % CARD_TEXT_COUNT,
                wall_column: index % WALL_COLUMNS,
                wall_row: index / WALL_COLUMNS,
                starts_left: index % 2 == 0,
                start_row: (index * START_ROW_STRIDE) % deck_size,
            };
            slots.push(slot);
            index = index + 1;
            position = position + 1;
        }
        proof {
            assert(index == (layer + 1) * per_layer) by (nonlinear_arith)
                requires
                    index == layer * per_layer + per_layer,
            ;
        }
        layer = layer + 1;
    }
    proof {
        assert(index == total) by (nonlinear_arith)
            requires
                index == layers * per_layer,
                total == per_layer * layers,
        ;
        lemma_deck_positions(layout, slots@);
        lemma_deck_texts(layout, slots@);
        lemma_deck_sides(layout, slots@);
        lemma_deck_colors_and_rows(layout, slots@);
    }
    slots
}

/// A card's index is its ring times the ring size plus its position, and
/// its position lies on the ring.
proof fn lemma_ring_decomposition(layout: CardLayout, k: int, slot: CardSlot)
    requires
        0 <= k < layout.total(),
        slot_matches(layout, k, slot),
    ensures
        slot.layer * layout.per_layer + slot.position == k,
        slot.position < layout.per_layer,
{
    let per_layer: int = layout.per_layer as int;
    assert(per_layer > 0) by (nonlinear_arith)
        requires
            0 <= k < per_layer * layout.layers,
            layout.layers >= 0,
    ;
    vstd::arithmetic::div_mod::lemma_fundamental_div_mod(k, per_layer);
    vstd::arithmetic::div_mod::lemma_mod_pos_bound(k, per_layer);
    assert(slot.layer * per_layer == per_layer * (k / per_layer)) by (nonlinear_arith)
        requires
            slot.layer == k / per_layer,
    ;
}

/// A dealt deck lists its cards in deck order, and each card's index is
/// its ring times the ring size plus its position on the ring, and its wall
/// row times the wall width plus its wall column.
pub proof fn lemma_deck_positions(layout: CardLayout, slots: Seq<CardSlot>)
    requires
        slots.len() == layout.total(),
        forall|k: int| 0 <= k < slots.len() ==> slot_matches(layout, k, #[trigger] slots[k]),
    ensures
        forall|k: int| 0 <= k < slots.len() ==> (#[trigger] slots[k]).index == k,
        forall|k: int|
            0 <= k < slots.len() ==> (#[trigger] slots[k]).layer * layout.per_layer + slots[k].position == k
                && slots[k].position < layout.per_layer,
        forall|k: int|
            0 <= k < slots.len() ==> (#[trigger] slots[k]).wall_row * WALL_COLUMNS + slots[k].wall_column == k
                && slots[k].wall_column < WALL_COLUMNS,
{
    assert forall|k: int|
        0 <= k < slots.len() implies (#[trigger] slots[k]).layer * layout.per_layer + slots[k].position == k
            && slots[k].position < layout.per_layer by {
        lemma_ring_decomposition(layout, k, slots[k]);
    }
}

/// The texts of a dealt deck: card `k` shows text `k` modulo the number of
/// texts, so the first `CARD_TEXT_COUNT` cards show every text once, in
/// order, and the texts repeat with that period down the deck.
pub proof fn lemma_deck_texts(layout: CardLayout, slots: Seq<CardSlot>)
    requires
        slots.len() == layout.total(),
        forall|k: int| 0 <= k < slots.len() ==> slot_matches(layout, k, #[trigger] slots[k]),
    ensures
        forall|k: int| 0 <= k < slots.len() ==> (#[trigger] slots[k]).text == k % (CARD_TEXT_COUNT as int),
        forall|t: int| 0 <= t < CARD_TEXT_COUNT && t < slots.len() ==> (#[trigger] slots[t]).text == t,
        forall|k: int|
            0 <= k && k + CARD_TEXT_COUNT < slots.len() ==> slots[k + CARD_TEXT_COUNT].text == (
            #[trigger] slots[k]).text,
{
    assert forall|k: int|
        0 <= k && k + CARD_TEXT_COUNT < slots.len() implies slots[k + CARD_TEXT_COUNT].text == (
        #[trigger] slots[k]).text by {
        assert(slot_matches(layout, k + CARD_TEXT_COUNT, slots[k + CARD_TEXT_COUNT]));
    }
}

/// The fly-in sides of a dealt deck: card `k` comes from the left exactly
/// when `k` is even, so the first card comes from the left and consecutive
/// cards come from opposite sides.
pub proof fn lemma_deck_sides(layout: CardLayout, slots: Seq<CardSlot>)
    requires
        slots.len() == layout.total(),
        forall|k: int| 0 <= k < slots.len() ==> slot_matches(layout, k, #[trigger] slots[k]),
    ensures
        forall|k: int| 0 <= k < slots.len() ==> (#[trigger] slots[k]).starts_left == (k % 2 == 0),
        forall|k: int|
            0 <= k && k + 1 < slots.len() ==> (#[trigger] slots[k]).starts_left != slots[k + 1].starts_left,
        slots.len() > 0 ==> slots[0].starts_left,
{
    assert forall|k: int|
        0 <= k && k + 1 < slots.len() implies (#[trigger] slots[k]).starts_left != slots[k + 1].starts_left by {
        assert(slot_matches(layout, k + 1, slots[k + 1]));
    }
}

/// The start row of the next card is `START_ROW_STRIDE` further, wrapping
/// at the deck size.
proof fn lemma_start_row_step(k: int, total: int)
    requires
        0 < total,
    ensures
        ((k + 1) * START_ROW_STRIDE) % total == ((k * START_ROW_STRIDE) % total + START_ROW_STRIDE) % total,
{
    vstd::arithmetic::div_mod::lemma_add_mod_noop(k * START_ROW_STRIDE, START_ROW_STRIDE as int, total);
    vstd::arithmetic::div_mod::lemma_add_mod_noop(
        (k * START_ROW_STRIDE) % total,
        START_ROW_STRIDE as int,
        total,
    );
    vstd::arithmetic::div_mod::lemma_mod_twice(k * START_ROW_STRIDE, total);
    assert((k + 1) * START_ROW_STRIDE == k * START_ROW_STRIDE + START_ROW_STRIDE);
}

/// The colour of the next card is `COLOR_STRIDE` further, plus the step in
/// ring, modulo the number of colour pairs.
proof fn lemma_color_step(k: int, layer: int, next_layer: int)
    ensures
        ((k + 1) * COLOR_STRIDE + next_layer) % (CARD_COLOR_COUNT as int) == ((k * COLOR_STRIDE + layer) % (
        CARD_COLOR_COUNT as int) + COLOR_STRIDE + (next_layer - layer)) % (CARD_COLOR_COUNT as int),
{
}

/// The first card of a non-empty deck is on ring 0, wears colour 0 and
/// starts on row 0.
proof fn lemma_first_card(layout: CardLayout)
    requires
        layout.total() > 0,
    ensures
        0int / (layout.per_layer as int) == 0,
        (0 * COLOR_STRIDE + 0int / (layout.per_layer as int)) % (CARD_COLOR_COUNT as int) == 0,
        (0 * START_ROW_STRIDE) % layout.total() == 0,
{
    let per_layer: int = layout.per_layer as int;
    assert(per_layer > 0) by (nonlinear_arith)
        requires
            0 < per_layer * layout.layers,
            layout.layers >= 0,
    ;
    vstd::arithmetic::div_mod::lemma_basic_div(0, per_layer);
    vstd::arithmetic::div_mod::lemma_small_mod(0, layout.total() as nat);
    assert(0int / per_layer == 0);
}

/// The colours and start rows of a dealt deck: card `k` wears colour
/// `COLOR_STRIDE * k` plus its ring, modulo the number of colour pairs, and
/// starts on row `START_ROW_STRIDE * k` modulo the deck size. Step by step:
/// the first card wears colour 0 and starts on row 0; each next card's
/// colour is `COLOR_STRIDE` further (one more when it opens a new ring), and
/// its start row is `START_ROW_STRIDE` further, wrapping at the deck size.
pub proof fn lemma_deck_colors_and_rows(layout: CardLayout, slots: Seq<CardSlot>)
    requires
        slots.len() == layout.total(),
        forall|k: int| 0 <= k < slots.len() ==> slot_matches(layout, k, #[trigger] slots[k]),
    ensures
        forall|k: int|
            0 <= k < slots.len() ==> (#[trigger] slots[k]).color == (k * COLOR_STRIDE + slots[k].layer) % (
            CARD_COLOR_COUNT as int),
        forall|k: int|
            0 <= k < slots.len() ==> (#[trigger] slots[k]).start_row == (k * START_ROW_STRIDE) % layout.total(),
        slots.len() > 0 ==> slots[0].color == 0 && slots[0].start_row == 0,
        forall|k: int|
            0 <= k && k + 1 < slots.len() ==> slots[k + 1].color == ((#[trigger] slots[k]).color + COLOR_STRIDE
                + (slots[k + 1].layer - slots[k].layer)) % (CARD_COLOR_COUNT as int),
        forall|k: int|
            0 <= k && k + 1 < slots.len() ==> slots[k + 1].start_row == ((#[trigger] slots[k]).start_row
                + START_ROW_STRIDE) % layout.total(),
{
    if slots.len() > 0 {
        assert(slot_matches(layout, 0, slots[0]));
        lemma_first_card(layout);
    }
    assert forall|k: int|
        0 <= k && k + 1 < slots.len() implies slots[k + 1].start_row == ((#[trigger] slots[k]).start_row
            + START_ROW_STRIDE) % layout.total() by {
        assert(slot_matches(layout, k + 1, slots[k + 1]));
        lemma_start_row_step(k, layout.total());
    }
    assert forall|k: int|
        0 <= k && k + 1 < slots.len() implies slots[k + 1].color == ((#[trigger] slots[k]).color
            + COLOR_STRIDE + (slots[k + 1].layer - slots[k].layer)) % (CARD_COLOR_COUNT as int) by {
        assert(slot_matches(layout, k + 1, slots[k + 1]));
        lemma_color_step(k, slots[k].layer as int, slots[k + 1].layer as int);
    }
}

/// Every card the deck deals names a ring of the layout, a position on that
/// ring, one of the card texts, one of the colour pairs and a start row
/// below the deck size.
pub proof fn lemma_slot_in_range(layout: CardLayout, k: int, slot: CardSlot)
    requires
        0 <= k < layout.total(),
        slot_matches(layout, k, slot),
    ensures
        slot.layer < layout.layers,
        slot.position < layout.per_layer,
        slot.text < CARD_TEXT_COUNT,
        slot.color < CARD_COLOR_COUNT,
        slot.wall_column < WALL_COLUMNS,
        slot.start_row < layout.total(),
{
    let per_layer: int = layout.per_layer as int;
    assert(per_layer > 0) by (nonlinear_arith)
        requires
            0 <= k < per_layer * layout.layers,
            layout.layers >= 0,
    ;
    let layer: int = k / per_layer;
    let position: int = k % per_layer;
    vstd::arithmetic::div_mod::lemma_fundamental_div_mod(k, per_layer);
    vstd::arithmetic::div_mod::lemma_mod_pos_bound(k, per_layer);
    assert(layer < layout.layers) by (nonlinear_arith)
        requires
            k == per_layer * layer + position,
            0 <= position,
            k < per_layer * layout.layers,
            per_layer > 0,
    ;
    vstd::arithmetic::div_mod::lemma_mod_pos_bound(k * START_ROW_STRIDE, layout.total());
}

/// Each position on each ring is dealt to exactly one card: the card whose
/// index is `layer * per_layer + position`.
pub proof fn lemma_ring_position_dealt(layout: CardLayout, layer: int, position: int, k: int, slot: CardSlot)
    requires
        0 <= layer < layout.layers,
        0 <= position < layout.per_layer,
        0 <= k < layout.total(),
        slot_matches(layout, k, slot),
    ensures
        (slot.layer == layer && slot.position == position) <==> k == layer * layout.per_layer + position,
{
    let per_layer: int = layout.per_layer as int;
    vstd::arithmetic::div_mod::lemma_fundamental_div_mod(k, per_layer);
    if k == layer * per_layer + position {
        vstd::arithmetic::div_mod::lemma_fundamental_div_mod_converse(k, per_layer, layer, position);
    }
}

} // verus!
