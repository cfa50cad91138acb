//! Drawing on a pixel buffer: one white arrow at a fixed place.
//!
//! The buffer holds the rows of an image one after the other, `width`
//! pixels each, so the pixel in column `x` and row `y` is at `x + y * width`.

use vstd::prelude::*;

verus! {

/// The colour of the arrow: opaque white.
pub const ARROW_COLOR: u32 = 0xFFFF_FFFF;

/// Whether column `x`, row `y` is on the arrow's shaft, a bar fifty pixels
/// long and five high.
pub open spec fn on_shaft(x: int, y: int) -> bool {
    100 <= x < 150 && 300 <= y < 305
}

/// Whether column `x`, row `y` is on the arrow's head, a triangle that
/// narrows by one row above and below with each column to the right.
pub open spec fn on_head(x: int, y: int) -> bool {
    150 <= x < 180 && 285 + (x - 150) <= y < 320 - (x - 150)
}

/// Whether column `x`, row `y` is on the arrow.
pub open spec fn on_arrow(x: int, y: int) -> bool {
    on_shaft(x, y) || on_head(x, y)
}

/// Whether every pixel of the arrow lies inside a buffer of `len` pixels
/// whose rows are `width` long.
pub open spec fn arrow_fits(len: int, width: int) -> bool {
    forall|x: int, y: int| #[trigger] on_arrow(x, y) ==> x + y * width < len
}

/// Whether the pixel at `index` is one of the arrow's.
pub open spec fn arrow_covers(index: int, width: int) -> bool {
    exists|x: int, y: int| #[trigger] on_arrow(x, y) && index == x + y * width
}

/// Whether the pixel at `index` belongs to the part of the arrow that is
/// drawn once the columns left of `column` are complete and, in `column`,
/// the rows above `row`.
pub open spec fn drawn_covers(index: int, width: int, column: int, row: int) -> bool {
    exists|x: int, y: int|
        #[trigger] on_arrow(x, y) && (x < column || (x == column && y < row)) && index == x + y
            * width
}

/// Paints the arrow into `buffer`: every pixel of the arrow becomes white,
/// every other pixel stays as it was. `height` is not looked at.
pub fn draw_arrow(buffer: &mut Vec<u32>, width: usize, height: usize)
    requires
        arrow_fits(old(buffer)@.len() as int, width as int),
    ensures
        final(buffer)@.len() == old(buffer)@.len(),
        forall|i: int|
            0 <= i < old(buffer)@.len() ==> #[trigger] final(buffer)@[i] == if arrow_covers(
                i,
                width as int,
            ) {
                ARROW_COLOR
            } else {
                old(buffer)@[i]
            },
{
    let ghost before = buffer@;
    let mut x: usize = 100;
    while x < 150
        invariant
            100 <= x <= 150,
            buffer@.len() == before.len(),
            arrow_fits(before.len() as int, width as int),
            forall|i: int|
                0 <= i < before.len() ==> #[trigger] buffer@[i] == if drawn_covers(
                    i,
                    width as int,
                    x as int,
                    0,
                ) {
                    ARROW_COLOR
                } else {
                    before[i]
                },
        decreases 150 - x,
    {
        let mut y: usize = 300;
        while y < 305
            invariant
                100 <= x < 150,
                300 <= y <= 305,
                buffer@.len() == before.len(),
                arrow_fits(before.len() as int, width as int),
                forall|i: int|
                    0 <= i < before.len() ==> #[trigger] buffer@[i] == if drawn_covers(
                        i,
                        width as int,
                        x as int,
                        y as int,
                    ) {
                        ARROW_COLOR
                    } else {
                        before[i]
                    },
            decreases 305 - y,
        {
            paint(buffer, width, x, y, Ghost(before));
            y += 1;
        }
        proof {
            lemma_column_done(before, buffer@, width as int, x as int, y as int);
        }
        x += 1;
    }
    while x < 180
        invariant
            150 <= x <= 180,
            buffer@.len() == before.len(),
            arrow_fits(before.len() as int, width as int),
            forall|i: int|
                0 <= i < before.len() ==> #[trigger] buffer@[i] == if drawn_covers(
                    i,
                    width as int,
                    x as int,
                    0,
                ) {
                    ARROW_COLOR
                } else {
                    before[i]
                },
        decreases 180 - x,
    {
        let mut y: usize = 285 + (x - 150);
        let end: usize = 320 - (x - 150);
        while y < end
            invariant
                150 <= x < 180,
                end == 320 - (x - 150),
                285 + (x - 150) <= y,
                y <= end || y == 285 + (x - 150),
                buffer@.len() == before.len(),
                arrow_fits(before.len() as int, width as int),
                forall|i: int|
                    0 <= i < before.len() ==> #[trigger] buffer@[i] == if drawn_covers(
                        i,
                        width as int,
                        x as int,
                        y as int,
                    ) {
                        ARROW_COLOR
                    } else {
                        before[i]
                    },
            decreases end - y,
        {
            paint(buffer, width, x, y, Ghost(before));
            y += 1;
        }
        proof {
            lemma_column_done(before, buffer@, width as int, x as int, y as int);
        }
        x += 1;
    }
    proof {
        assert forall|i: int| 0 <= i < before.len() implies drawn_covers(i, width as int, 180, 0)
            == arrow_covers(i, width as int) by {
            if arrow_covers(i, width as int) {
                let (px, py) = choose|px: int, py: int|
                    #[trigger] on_arrow(px, py) && i == px + py * width;
                assert(on_arrow(px, py) && px < 180);
            }
        }
    }
}

/// Paints the arrow's pixel in column `x`, row `y`.
fn paint(buffer: &mut Vec<u32>, width: usize, x: usize, y: usize, Ghost(before): Ghost<Seq<u32>>)
    requires
        on_arrow(x as int, y as int),
        old(buffer)@.len() == before.len(),
        arrow_fits(before.len() as int, width as int),
        forall|i: int|
            0 <= i < before.len() ==> #[trigger] old(buffer)@[i] == if drawn_covers(
                i,
                width as int,
                x as int,
                y as int,
            ) {
                ARROW_COLOR
            } else {
                before[i]
            },
    ensures
        final(buffer)@.len() == before.len(),
        forall|i: int|
            0 <= i < before.len() ==> #[trigger] final(buffer)@[i] == if drawn_covers(
                i,
                width as int,
                x as int,
                y + 1,
            ) {
                ARROW_COLOR
            } else {
                before[i]
            },
{
    let len = buffer.len();
    assert(x + y * width < len);
    assert(0 <= y * width) by (nonlinear_arith)
        requires
            0 <= y,
            0 <= width,
    ;
    let at = x + y * width;
    buffer.set(at, ARROW_COLOR);
    proof {
        assert(drawn_covers(at as int, width as int, x as int, y + 1));
        assert forall|i: int| 0 <= i < before.len() && i != at implies drawn_covers(
            i,
            width as int,
            x as int,
            y + 1,
        ) == drawn_covers(i, width as int, x as int, y as int) by {
            if drawn_covers(i, width as int, x as int, y + 1) {
                let (px, py) = choose|px: int, py: int|
                    #[trigger] on_arrow(px, py) && (px < x || (px == x && py < y + 1)) && i == px
                        + py * width;
                assert(on_arrow(px, py) && (px < x || (px == x && py < y)));
            }
            if drawn_covers(i, width as int, x as int, y as int) {
                let (px, py) = choose|px: int, py: int|
                    #[trigger] on_arrow(px, py) && (px < x || (px == x && py < y)) && i == px + py
                        * width;
                assert(on_arrow(px, py) && (px < x || (px == x && py < y + 1)));
            }
        }
    }
}

/// Once the rows of a column are painted down to `row`, and no arrow pixel
/// of that column lies at or below `row`, the column is complete.
proof fn lemma_column_done(before: Seq<u32>, now: Seq<u32>, width: int, column: int, row: int)
    requires
        now.len() == before.len(),
        forall|y: int| y >= row ==> !on_arrow(column, y),
        forall|i: int|
            0 <= i < before.len() ==> #[trigger] now[i] == if drawn_covers(i, width, column, row) {
                ARROW_COLOR
            } else {
                before[i]
            },
    ensures
        forall|i: int|
            0 <= i < before.len() ==> #[trigger] now[i] == if drawn_covers(
                i,
                width,
                column + 1,
                0,
            ) {
                ARROW_COLOR
            } else {
                before[i]
            },
{
    assert forall|i: int| 0 <= i < before.len() implies drawn_covers(i, width, column + 1, 0)
        == drawn_covers(i, width, column, row) by {
        if drawn_covers(i, width, column + 1, 0) {
            let (px, py) = choose|px: int, py: int|
                #[trigger] on_arrow(px, py) && (px < column + 1 || (px == column + 1 && py < 0))
                    && i == px + py * width;
            assert(on_arrow(px, py) && (px < column || (px == column && py < row)));
        }
        if drawn_covers(i, width, column, row) {
            let (px, py) = choose|px: int, py: int|
                #[trigger] on_arrow(px, py) && (px < column || (px == column && py < row)) && i
                    == px + py * width;
            assert(on_arrow(px, py) && (px < column + 1 || (px == column + 1 && py < 0)));
        }
    }
}

/// The largest index any pixel of the arrow has in rows `width` long: that
/// of the lowest pixel in the head's first column or, in rows of no length,
/// the head's last column.
pub open spec fn arrow_extent(width: int) -> int {
    if width == 0 {
        167
    } else {
        150 + 319 * width
    }
}

/// No pixel of the arrow lies beyond the extent, and one lies on it.
pub proof fn lemma_arrow_extent(width: int)
    requires
        0 <= width,
    ensures
        forall|x: int, y: int| #[trigger] on_arrow(x, y) ==> x + y * width <= arrow_extent(width),
        arrow_covers(arrow_extent(width), width),
{
    assert forall|x: int, y: int| #[trigger] on_arrow(x, y) implies x + y * width <= arrow_extent(
        width,
    ) by {
        if width == 0 {
            assert(y * width == 0) by (nonlinear_arith)
                requires
                    width == 0,
            ;
        } else if on_shaft(x, y) {
            assert(y * width <= 304 * width) by (nonlinear_arith)
                requires
                    y <= 304,
                    0 <= width,
            ;
        } else {
            let d = x - 150;
            assert(y * width <= 319 * width - d) by (nonlinear_arith)
                requires
                    y <= 319 - d,
                    0 <= d,
                    1 <= width,
            ;
        }
    }
    if width == 0 {
        assert(on_arrow(167, 302));
        assert(167 == 167 + 302 * width) by (nonlinear_arith)
            requires
                width == 0,
        ;
    } else {
        assert(on_arrow(150, 319));
    }
}

/// Tells whether the arrow can be drawn into a buffer of `len` pixels whose
/// rows are `width` long.
pub fn arrow_fits_in(len: usize, width: usize) -> (fits: bool)
    ensures
        fits == arrow_fits(len as int, width as int),
{
    proof {
        lemma_arrow_extent(width as int);
        if arrow_fits(len as int, width as int) {
            let (x, y) = choose|x: int, y: int|
                #[trigger] on_arrow(x, y) && arrow_extent(width as int) == x + y * width;
            assert(on_arrow(x, y));
        }
    }
    if width == 0 {
        len > 167
    } else {
        match width.checked_mul(319) {
            Some(rows) => match rows.checked_add(150) {
                Some(last) => last < len,
                None => false,
            },
            None => false,
        }
    }
}

} // verus!
