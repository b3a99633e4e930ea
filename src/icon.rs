use vstd::prelude::*;

verus! {

/// Width and height of the status icon, in pixels.
pub const ICON_SIZE: usize = 16;

/// Whether pixel (`x`, `y`) belongs to the musical note: stem, flag and head.
pub open spec fn is_note(x: int, y: int) -> bool {
    ||| (6 <= x <= 7 && 3 <= y <= 14)
    ||| (8 <= x <= 10 && 3 <= y <= 5)
    ||| (4 <= x <= 9 && 12 <= y <= 15)
}

/// The value of every channel of pixel `p`, counted row by row.
pub open spec fn pixel_value(p: int) -> u8 {
    if is_note(p % 16, p / 16) {
        255
    } else {
        0
    }
}

/// A 16 by 16 RGBA image of a white musical note on a transparent ground.
pub fn note_icon_rgba() -> (r: Vec<u8>)
    ensures
        r@.len() == ICON_SIZE * ICON_SIZE * 4,
        forall|i: int| 0 <= i < r@.len() ==> #[trigger] r@[i] == pixel_value(i / 4),
{
    let mut rgba: Vec<u8> = Vec::new();
    let mut p: usize = 0;
    while p < ICON_SIZE * ICON_SIZE
        invariant
            p <= ICON_SIZE * ICON_SIZE,
            rgba@.len() == 4 * p,
            forall|i: int| 0 <= i < rgba@.len() ==> #[trigger] rgba@[i] == pixel_value(i / 4),
        decreases ICON_SIZE * ICON_SIZE - p,
    {
        let x = p % ICON_SIZE;
        let y = p / ICON_SIZE;
        let is_note = (x >= 6 && x <= 7 && y >= 3 && y <= 14) || (x >= 8 && x <= 10 && y >= 3 && y
            <= 5) || (x >= 4 && x <= 9 && y >= 12 && y <= 15);
        let v: u8 = if is_note {
            255
        } else {
            0
        };
        assert(v == pixel_value(p as int));
        let ghost start = rgba@.len();
        rgba.push(v);
        rgba.push(v);
        rgba.push(v);
        rgba.push(v);
        assert forall|i: int| 0 <= i < rgba@.len() implies #[trigger] rgba@[i] == pixel_value(i / 4) by {
            if i >= start {
                assert(i / 4 == p) by (nonlinear_arith)
                    requires
                        4 * p <= i < 4 * p + 4,
                ;
            }
        }
        p = p + 1;
    }
    rgba
}

} // verus!
