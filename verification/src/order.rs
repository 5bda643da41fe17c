//! The order in which cards are painted: back to front.
//!
//! Each card's depth is a float owned by the host. The host hands over the
//! float's bit pattern; `total_order_key` turns it into an integer that
//! sorts like the float does under `f64::total_cmp`, and `paint_order`
//! sorts the cards by that key, breaking ties by deck order.
use vstd::prelude::*;

verus! {

/// The sign bit of a 64-bit float.
pub const SIGN_BIT: u64 = 0x8000_0000_0000_0000;

/// The sort key of the float whose bit pattern is `bits`: non-negative
/// patterns keep their value, and a pattern with the sign bit set maps to
/// `-1 - magnitude`, so that larger magnitudes sort lower.
pub open spec fn order_key(bits: u64) -> int {
    if bits < SIGN_BIT {
        bits as int
    } else {
        -1 - (bits - SIGN_BIT)
    }
}

/// The integer key under which the float with bit pattern `bits` sorts as
/// `f64::total_cmp` sorts it: the sign bit stays, and for negative floats
/// the remaining 63 bits are flipped.
pub fn total_order_key(bits: u64) -> (key: i64)
    ensures
        key == order_key(bits),
{
    if bits < SIGN_BIT {
        bits as i64
    } else {
        let magnitude: u64 = bits - SIGN_BIT;
        -1 - (magnitude as i64)
    }
}

/// The key orders bit patterns as `f64::total_cmp` orders the floats they
/// encode: every pattern with the sign bit set (a negative float) sorts
/// below every pattern without it; among non-negative floats a larger
/// pattern sorts higher, among negative floats a larger pattern (a larger
/// magnitude) sorts lower; and no two patterns share a key.
pub proof fn lemma_order_key_orders_like_total_cmp(a: u64, b: u64)
    ensures
        order_key(a) < 0 <==> a >= SIGN_BIT,
        a >= SIGN_BIT && b < SIGN_BIT ==> order_key(a) < order_key(b),
        a < b < SIGN_BIT ==> order_key(a) < order_key(b),
        SIGN_BIT <= a < b ==> order_key(b) < order_key(a),
        a != b ==> order_key(a) != order_key(b),
{
}

/// Card `a` is painted before card `b`: its depth key is smaller (it lies
/// farther back), or the keys are equal and `a` comes earlier in the deck.
pub open spec fn paints_before(keys: Seq<i64>, a: int, b: int) -> bool {
    keys[a] < keys[b] || (keys[a] == keys[b] && a < b)
}

/// `order` lists every card of `keys` exactly once, back to front.
pub open spec fn is_paint_order(keys: Seq<i64>, order: Seq<usize>) -> bool {
    &&& order.len() == keys.len()
    &&& forall|k: int| 0 <= k < order.len() ==> #[trigger] order[k] < keys.len()
    &&& forall|v: usize| v < keys.len() ==> #[trigger] order.contains(v)
    &&& forall|i: int, j: int|
        0 <= i < j < order.len() ==> paints_before(keys, #[trigger] order[i] as int, #[trigger] order[j] as int)
}

/// Every value below `n` occurs in `s` exactly once, and nothing else does.
pub open spec fn covers(s: Seq<usize>, n: int) -> bool {
    &&& s.len() == n
    &&& forall|a: int, b: int| 0 <= a < b < s.len() ==> #[trigger] s[a] != #[trigger] s[b]
    &&& forall|k: int| 0 <= k < s.len() ==> #[trigger] s[k] < n
    &&& forall|v: usize| v < n ==> #[trigger] s.contains(v)
}

/// The paint order of cards with depth keys `depth_keys` (card `c` has key
/// `depth_keys[c]`): cards farther back (smaller key) first, and among
/// equally deep cards the one earlier in the deck first.
pub fn paint_order(depth_keys: &Vec<i64>) -> (order: Vec<usize>)
    ensures
        is_paint_order(depth_keys@, order@),
        forall|i: int, j: int|
            0 <= i < j < order.len() ==> depth_keys[#[trigger] order[i] as int] <= depth_keys[#[trigger] order[j] as int],
        forall|i: int, j: int|
            0 <= i < j < order.len() && depth_keys[#[trigger] order[i] as int] == depth_keys[#[trigger] order[j] as int]
                ==> order[i] < order[j],
{
    let n: usize = depth_keys.len();
    let ghost keys = depth_keys@;
    let mut order: Vec<usize> = Vec::new();
    let mut v: usize = 0;
    while v < n
        invariant
            n == depth_keys.len(),
            v <= n,
            order.len() == v,
            forall|k: int| 0 <= k < v ==> #[trigger] order[k] == k,
        decreases n - v,
    {
        order.push(v);
        v = v + 1;
    }
    assert forall|w: usize| w < n implies #[trigger] order@.contains(w) by {
        assert(order@[w as int] == w);
    }
    let mut i: usize = 0;
    while i < n
        invariant
            n == depth_keys.len(),
            keys == depth_keys@,
            i <= n,
            covers(order@, n as int),
            forall|a: int, b: int|
                0 <= a < b < i ==> paints_before(keys, #[trigger] order[a] as int, #[trigger] order[b] as int),
            forall|a: int, b: int|
                0 <= a < i <= b < n ==> paints_before(keys, #[trigger] order[a] as int, #[trigger] order[b] as int),
        decreases n - i,
    {
        let mut m: usize = i;
        let mut j: usize = i + 1;
        while j < n
            invariant
                n == depth_keys.len(),
                keys == depth_keys@,
                covers(order@, n as int),
                i <= m < n,
                i < j <= n,
                forall|b: int| i <= b < j ==> b == m || paints_before(keys, order[m as int] as int, #[trigger] order[b] as int),
            decreases n - j,
        {
            let oj: usize = order[j];
            let om: usize = order[m];
            if depth_keys[oj] < depth_keys[om] || (depth_keys[oj] == depth_keys[om] && oj < om) {
                m = j;
            }
            j = j + 1;
        }
        let ghost before = order@;
        let first: usize = order[i];
        let least: usize = order[m];
        order.set(i, least);
        order.set(m, first);
        proof {
            assert forall|a: int, b: int| 0 <= a < b < n implies #[trigger] order@[a] != #[trigger] order@[b] by {
                let pa: int = if a == i { m as int } else if a == m { i as int } else { a };
                let pb: int = if b == i { m as int } else if b == m { i as int } else { b };
                assert(order@[a] == before[pa]);
                assert(order@[b] == before[pb]);
                if pa < pb {
                    assert(before[pa] != before[pb]);
                } else {
                    assert(before[pb] != before[pa]);
                }
            }
            assert forall|w: usize| w < n implies #[trigger] order@.contains(w) by {
                assert(before.contains(w));
                let k: int = choose|k: int| 0 <= k < before.len() && before[k] == w;
                if k == i {
                    assert(order@[m as int] == w);
                } else if k == m {
                    assert(order@[i as int] == w);
                } else {
                    assert(order@[k] == w);
                }
            }
            assert forall|a: int, b: int|
                0 <= a < b < i + 1 implies paints_before(keys, #[trigger] order[a] as int, #[trigger] order[b] as int) by {
                assert(before[a] == order[a]);
                if b == i {
                    assert(order[b] == before[m as int]);
                } else {
                    assert(order[b] == before[b]);
                }
            }
            assert forall|a: int, b: int|
                0 <= a < i + 1 <= b < n implies paints_before(keys, #[trigger] order[a] as int, #[trigger] order[b] as int) by {
                if b == m {
                    assert(order[b] == before[i as int]);
                } else {
                    assert(order[b] == before[b]);
                }
                if a < i {
                    assert(order[a] == before[a]);
                } else {
                    assert(order[a] == before[m as int]);
                }
            }
        }
        i = i + 1;
    }
    proof {
        lemma_paint_order_by_depth_then_deck(keys, order@);
    }
    order
}

/// A paint order runs back to front: along it the depth keys never
/// decrease, and cards with equal keys keep their deck order (the smaller
/// deck index is painted first).
pub proof fn lemma_paint_order_by_depth_then_deck(keys: Seq<i64>, order: Seq<usize>)
    requires
        is_paint_order(keys, order),
    ensures
        forall|i: int, j: int|
            0 <= i < j < order.len() ==> keys[#[trigger] order[i] as int] <= keys[#[trigger] order[j] as int],
        forall|i: int, j: int|
            0 <= i < j < order.len() && keys[#[trigger] order[i] as int] == keys[#[trigger] order[j] as int]
                ==> order[i] < order[j],
{
}

} // verus!
