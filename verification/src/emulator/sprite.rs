//! How far a sprite has been drawn: the steps between a display and the
//! same display with the whole sprite on it.

use vstd::prelude::*;
use super::state::{sprite_bit, MachineState, DISPLAY_HEIGHT, DISPLAY_WIDTH};

verus! {

/// Whether the sprite has a set bit on pixel (`r`, `c`) that is drawn by the
/// time the drawing, row by row and left to right, reaches row `row_end` and
/// column `col_end`.
pub open spec fn painted(
    s: MachineState,
    x0: int,
    y0: int,
    rows: int,
    row_end: int,
    col_end: int,
    r: int,
    c: int,
) -> bool {
    s.sprite_covers(x0, y0, rows, r, c) && (r < row_end || (r == row_end && c < col_end))
}

/// The display when the drawing has reached row `row_end` and column
/// `col_end`.
pub open spec fn partly_drawn(
    s: MachineState,
    x0: int,
    y0: int,
    rows: int,
    row_end: int,
    col_end: int,
) -> Seq<Seq<bool>> {
    Seq::new(
        DISPLAY_HEIGHT as nat,
        |r: int|
            Seq::new(
                DISPLAY_WIDTH as nat,
                |c: int| s.display[r][c] != painted(s, x0, y0, rows, row_end, col_end, r, c),
            ),
    )
}

/// Whether a lit pixel has gone off by the time the drawing has reached row
/// `row_end` and column `col_end`.
pub open spec fn partly_collides(
    s: MachineState,
    x0: int,
    y0: int,
    rows: int,
    row_end: int,
    col_end: int,
) -> bool {
    exists|r: int, c: int|
        0 <= r < DISPLAY_HEIGHT && 0 <= c < DISPLAY_WIDTH && #[trigger] s.display[r][c] && painted(
            s,
            x0,
            y0,
            rows,
            row_end,
            col_end,
            r,
            c,
        )
}

/// Before the first pixel nothing is drawn.
pub proof fn lemma_paint_start(s: MachineState, x0: int, y0: int, rows: int)
    requires
        s.shaped(),
    ensures
        partly_drawn(s, x0, y0, rows, y0, x0) == s.display,
        !partly_collides(s, x0, y0, rows, y0, x0),
{
    let d = partly_drawn(s, x0, y0, rows, y0, x0);
    assert forall|r: int| 0 <= r < DISPLAY_HEIGHT implies #[trigger] d[r] == s.display[r] by {
        assert(d[r] =~= s.display[r]);
    }
    assert(d =~= s.display);
}

/// One more pixel: the display changes on that pixel alone, and a collision
/// is added exactly if the bit is set on a lit pixel.
pub proof fn lemma_paint_pixel(s: MachineState, x0: int, y0: int, rows: int, row: int, bit: int)
    requires
        s.shaped(),
        0 <= x0,
        0 <= y0,
        0 <= row < rows,
        0 <= bit < 8,
        y0 + row < DISPLAY_HEIGHT,
        x0 + bit < DISPLAY_WIDTH,
    ensures
        partly_drawn(s, x0, y0, rows, y0 + row, x0 + bit)[y0 + row][x0 + bit] == s.display[y0
            + row][x0 + bit],
        partly_drawn(s, x0, y0, rows, y0 + row, x0 + bit + 1) == partly_drawn(
            s,
            x0,
            y0,
            rows,
            y0 + row,
            x0 + bit,
        ).update(
            y0 + row,
            partly_drawn(s, x0, y0, rows, y0 + row, x0 + bit)[y0 + row].update(
                x0 + bit,
                s.display[y0 + row][x0 + bit] != sprite_bit(s.memory[s.i + row], bit),
            ),
        ),
        partly_collides(s, x0, y0, rows, y0 + row, x0 + bit + 1) <==> (partly_collides(
            s,
            x0,
            y0,
            rows,
            y0 + row,
            x0 + bit,
        ) || (s.display[y0 + row][x0 + bit] && sprite_bit(s.memory[s.i + row], bit))),
{
    let rr = y0 + row;
    let cc = x0 + bit;
    let cur = partly_drawn(s, x0, y0, rows, rr, cc);
    let next = partly_drawn(s, x0, y0, rows, rr, cc + 1);
    let flipped = cur.update(
        rr,
        cur[rr].update(cc, s.display[rr][cc] != sprite_bit(s.memory[s.i + row], bit)),
    );
    assert forall|r: int| 0 <= r < DISPLAY_HEIGHT implies #[trigger] next[r] == flipped[r] by {
        assert(next[r] =~= flipped[r]);
    }
    assert(next =~= flipped);
    if partly_collides(s, x0, y0, rows, rr, cc + 1) {
        let (r, c) = choose|r: int, c: int|
            0 <= r < DISPLAY_HEIGHT && 0 <= c < DISPLAY_WIDTH && #[trigger] s.display[r][c]
                && painted(s, x0, y0, rows, rr, cc + 1, r, c);
        if r == rr && c == cc {
        } else {
            assert(s.display[r][c] && painted(s, x0, y0, rows, rr, cc, r, c));
        }
    }
    if partly_collides(s, x0, y0, rows, rr, cc) {
        let (r, c) = choose|r: int, c: int|
            0 <= r < DISPLAY_HEIGHT && 0 <= c < DISPLAY_WIDTH && #[trigger] s.display[r][c]
                && painted(s, x0, y0, rows, rr, cc, r, c);
        assert(s.display[r][c] && painted(s, x0, y0, rows, rr, cc + 1, r, c));
    }
    if s.display[rr][cc] && sprite_bit(s.memory[s.i + row], bit) {
        assert(s.display[rr][cc] && painted(s, x0, y0, rows, rr, cc + 1, rr, cc));
    }
}

/// At the end of a row, at the eighth bit or at the right edge of the
/// display, the drawing stands at the start of the next row.
pub proof fn lemma_paint_row_end(s: MachineState, x0: int, y0: int, rows: int, row: int, bit: int)
    requires
        s.shaped(),
        0 <= x0 < DISPLAY_WIDTH,
        0 <= bit <= 8,
        bit == 8 || x0 + bit == DISPLAY_WIDTH,
    ensures
        partly_drawn(s, x0, y0, rows, y0 + row, x0 + bit) == partly_drawn(
            s,
            x0,
            y0,
            rows,
            y0 + row + 1,
            x0,
        ),
        partly_collides(s, x0, y0, rows, y0 + row, x0 + bit) == partly_collides(
            s,
            x0,
            y0,
            rows,
            y0 + row + 1,
            x0,
        ),
{
    let a = partly_drawn(s, x0, y0, rows, y0 + row, x0 + bit);
    let b = partly_drawn(s, x0, y0, rows, y0 + row + 1, x0);
    assert forall|r: int| 0 <= r < DISPLAY_HEIGHT implies #[trigger] a[r] == b[r] by {
        assert(a[r] =~= b[r]);
    }
    assert(a =~= b);
    if partly_collides(s, x0, y0, rows, y0 + row, x0 + bit) {
        let (r, c) = choose|r: int, c: int|
            0 <= r < DISPLAY_HEIGHT && 0 <= c < DISPLAY_WIDTH && #[trigger] s.display[r][c]
                && painted(s, x0, y0, rows, y0 + row, x0 + bit, r, c);
        assert(s.display[r][c] && painted(s, x0, y0, rows, y0 + row + 1, x0, r, c));
    }
    if partly_collides(s, x0, y0, rows, y0 + row + 1, x0) {
        let (r, c) = choose|r: int, c: int|
            0 <= r < DISPLAY_HEIGHT && 0 <= c < DISPLAY_WIDTH && #[trigger] s.display[r][c]
                && painted(s, x0, y0, rows, y0 + row + 1, x0, r, c);
        assert(s.display[r][c] && painted(s, x0, y0, rows, y0 + row, x0 + bit, r, c));
    }
}

/// After the last row the whole sprite is drawn.
pub proof fn lemma_paint_done(s: MachineState, x0: int, y0: int, rows: int)
    requires
        s.shaped(),
    ensures
        partly_drawn(s, x0, y0, rows, y0 + rows, x0) == s.drawn_display(x0, y0, rows),
        partly_collides(s, x0, y0, rows, y0 + rows, x0) == s.sprite_collides(x0, y0, rows),
{
    let a = partly_drawn(s, x0, y0, rows, y0 + rows, x0);
    let b = s.drawn_display(x0, y0, rows);
    assert forall|r: int| 0 <= r < DISPLAY_HEIGHT implies #[trigger] a[r] == b[r] by {
        assert(a[r] =~= b[r]);
    }
    assert(a =~= b);
    if partly_collides(s, x0, y0, rows, y0 + rows, x0) {
        let (r, c) = choose|r: int, c: int|
            0 <= r < DISPLAY_HEIGHT && 0 <= c < DISPLAY_WIDTH && #[trigger] s.display[r][c]
                && painted(s, x0, y0, rows, y0 + rows, x0, r, c);
        assert(s.display[r][c] && s.sprite_covers(x0, y0, rows, r, c));
    }
    if s.sprite_collides(x0, y0, rows) {
        let (r, c) = choose|r: int, c: int|
            0 <= r < DISPLAY_HEIGHT && 0 <= c < DISPLAY_WIDTH && #[trigger] s.display[r][c]
                && s.sprite_covers(x0, y0, rows, r, c);
        assert(s.display[r][c] && painted(s, x0, y0, rows, y0 + rows, x0, r, c));
    }
}

} // verus!
