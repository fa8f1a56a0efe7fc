//! The 64x32 monochrome display and how a sprite is drawn onto it.

use vstd::prelude::*;

verus! {

/// Columns of the display.
pub const SCREEN_WIDTH: usize = 64;

/// Rows of the display.
pub const SCREEN_HEIGHT: usize = 32;

/// Cells of the display, stored row by row.
pub const DISPLAY_SIZE: usize = 2048;

/// Whether pixel `column` of a sprite row is set; pixel 0 is the leftmost
/// one and the most significant bit.
pub open spec fn sprite_bit(row: u8, column: int) -> bool {
    row & (0x80u8 >> (column as u8)) != 0
}

/// How many columns to the right of column `left` the cell lies, going round
/// the right edge.
pub open spec fn column_offset(cell: int, left: u8) -> int {
    (cell % 64 - left) % 64
}

/// How many rows below row `top` the cell lies, going round the bottom edge.
pub open spec fn row_offset(cell: int, top: u8) -> int {
    (cell / 64 - top) % 32
}

/// Whether a sprite whose top left corner is at column `left`, row `top`
/// (both taken modulo the display's size) has a set pixel on `cell`.
pub open spec fn sprite_covers(sprite: Seq<u8>, left: u8, top: u8, cell: int) -> bool {
    let column = column_offset(cell, left);
    let row = row_offset(cell, top);
    column < 8 && row < sprite.len() && sprite_bit(sprite[row], column)
}

/// The display after the sprite was drawn: each cell under a set pixel of
/// the sprite is toggled.
pub open spec fn draw_spec(display: Seq<bool>, sprite: Seq<u8>, left: u8, top: u8) -> Seq<bool> {
    Seq::new(2048, |cell: int| display[cell] != sprite_covers(sprite, left, top, cell))
}

/// Whether drawing the sprite switches a lit cell off.
pub open spec fn collides(display: Seq<bool>, sprite: Seq<u8>, left: u8, top: u8) -> bool {
    exists|cell: int|
        0 <= cell < 2048 && display[cell] && #[trigger] sprite_covers(sprite, left, top, cell)
}

/// The part of [`sprite_covers`] that is due to the pixels drawn so far:
/// those in the first `rows_done` rows, and the first `columns_done` pixels of
/// the row after them.
spec fn covers_before(
    sprite: Seq<u8>,
    left: u8,
    top: u8,
    rows_done: int,
    columns_done: int,
    cell: int,
) -> bool {
    let column = column_offset(cell, left);
    let row = row_offset(cell, top);
    &&& sprite_covers(sprite, left, top, cell)
    &&& (row < rows_done || (row == rows_done && column < columns_done))
}

/// The part of [`collides`] that is due to the pixels drawn so far.
spec fn collides_before(
    display: Seq<bool>,
    sprite: Seq<u8>,
    left: u8,
    top: u8,
    rows_done: int,
    columns_done: int,
) -> bool {
    exists|cell: int|
        0 <= cell < 2048 && display[cell] && #[trigger] covers_before(
            sprite,
            left,
            top,
            rows_done,
            columns_done,
            cell,
        )
}

/// The cell that pixel `column` of sprite row `row` falls on.
spec fn pixel_cell(left: u8, top: u8, row: int, column: int) -> int {
    (left + column) % 64 + 64 * ((top + row) % 32)
}

/// Each pixel of a sprite of at most 32 rows falls on a cell of its own, and
/// that cell is the only one at the pixel's offsets.
proof fn lemma_pixel_cell(left: u8, top: u8, row: int, column: int)
    requires
        0 <= row < 32,
        0 <= column < 8,
    ensures
        0 <= pixel_cell(left, top, row, column) < 2048,
        column_offset(pixel_cell(left, top, row, column), left) == column,
        row_offset(pixel_cell(left, top, row, column), top) == row,
        forall|cell: int|
            0 <= cell < 2048 && #[trigger] column_offset(cell, left) == column && row_offset(
                cell,
                top,
            ) == row ==> cell == pixel_cell(left, top, row, column),
{
}

/// Draws a sprite onto the display.
///
/// The sprite is the `rows` bytes of `memory` from `start` on, one byte per
/// row, the most significant bit leftmost. Its top left corner goes to column
/// `left mod 64`, row `top mod 32`; a pixel that would fall beyond the right
/// or the bottom edge appears at the opposite edge. Each set pixel toggles
/// the cell under it. The result tells whether a lit cell was switched off.
pub fn draw_sprite(
    display: &mut [bool; 2048],
    memory: &[u8; 4096],
    start: usize,
    rows: usize,
    left: u8,
    top: u8,
) -> (collision: bool)
    requires
        rows <= 32,
        start + rows <= 4096,
    ensures
        final(display)@ == draw_spec(
            old(display)@,
            memory@.subrange(start as int, start + rows),
            left,
            top,
        ),
        collision == collides(
            old(display)@,
            memory@.subrange(start as int, start + rows),
            left,
            top,
        ),
    no_unwind
{
    let ghost before = display@;
    let ghost sprite = memory@.subrange(start as int, start + rows);
    let mut collision = false;
    let mut row: usize = 0;
    while row < rows
        invariant
            row <= rows <= 32,
            start + rows <= 4096,
            sprite == memory@.subrange(start as int, start + rows),
            forall|cell: int|
                0 <= cell < 2048 ==> display@[cell] == (before[cell] != covers_before(
                    sprite,
                    left,
                    top,
                    row as int,
                    0,
                    cell,
                )),
            collision == collides_before(before, sprite, left, top, row as int, 0),
        decreases rows - row,
    {
        let pixels = memory[start + row];
        let mut column: u8 = 0;
        while column < 8
            invariant
                column <= 8,
                row < rows <= 32,
                sprite.len() == rows,
                pixels == sprite[row as int],
                forall|cell: int|
                    0 <= cell < 2048 ==> display@[cell] == (before[cell] != covers_before(
                        sprite,
                        left,
                        top,
                        row as int,
                        column as int,
                        cell,
                    )),
                collision == collides_before(before, sprite, left, top, row as int, column as int),
            decreases 8 - column,
        {
            let ghost target = pixel_cell(left, top, row as int, column as int);
            let ghost lit = sprite_bit(pixels, column as int);
            proof {
                lemma_pixel_cell(left, top, row as int, column as int);
                assert forall|cell: int| 0 <= cell < 2048 implies #[trigger] covers_before(
                    sprite,
                    left,
                    top,
                    row as int,
                    column + 1,
                    cell,
                ) == (covers_before(sprite, left, top, row as int, column as int, cell) || (lit
                    && cell == target)) by {};
            }
            if pixels & (0x80u8 >> column) != 0 {
                let index = (left as usize + column as usize) % 64 + 64 * ((top as usize + row)
                    % 32);
                if display[index] {
                    collision = true;
                }
                display[index] = !display[index];
            }
            proof {
                if collides_before(before, sprite, left, top, row as int, column as int) {
                    let witness = choose|cell: int|
                        0 <= cell < 2048 && before[cell] && #[trigger] covers_before(
                            sprite,
                            left,
                            top,
                            row as int,
                            column as int,
                            cell,
                        );
                    assert(covers_before(sprite, left, top, row as int, column + 1, witness));
                }
                if lit && before[target] {
                    assert(covers_before(sprite, left, top, row as int, column + 1, target));
                }
            }
            column += 1;
        }
        proof {
            assert forall|cell: int| 0 <= cell < 2048 implies #[trigger] covers_before(
                sprite,
                left,
                top,
                row + 1,
                0,
                cell,
            ) == covers_before(sprite, left, top, row as int, 8, cell) by {};
            if collides_before(before, sprite, left, top, row as int, 8) {
                let witness = choose|cell: int|
                    0 <= cell < 2048 && before[cell] && #[trigger] covers_before(
                        sprite,
                        left,
                        top,
                        row as int,
                        8,
                        cell,
                    );
                assert(covers_before(sprite, left, top, row + 1, 0, witness));
            }
            if collides_before(before, sprite, left, top, row + 1, 0) {
                let witness = choose|cell: int|
                    0 <= cell < 2048 && before[cell] && #[trigger] covers_before(
                        sprite,
                        left,
                        top,
                        row + 1,
                        0,
                        cell,
                    );
                assert(covers_before(sprite, left, top, row as int, 8, witness));
            }
        }
        row += 1;
    }
    proof {
        assert forall|cell: int| 0 <= cell < 2048 implies #[trigger] covers_before(
            sprite,
            left,
            top,
            rows as int,
            0,
            cell,
        ) == sprite_covers(sprite, left, top, cell) by {};
        assert(display@ =~= draw_spec(before, sprite, left, top));
        if collides_before(before, sprite, left, top, rows as int, 0) {
            let witness = choose|cell: int|
                0 <= cell < 2048 && before[cell] && #[trigger] covers_before(
                    sprite,
                    left,
                    top,
                    rows as int,
                    0,
                    cell,
                );
            assert(sprite_covers(sprite, left, top, witness));
        }
        if collides(before, sprite, left, top) {
            let witness = choose|cell: int|
                0 <= cell < 2048 && before[cell] && #[trigger] sprite_covers(
                    sprite,
                    left,
                    top,
                    cell,
                );
            assert(covers_before(sprite, left, top, rows as int, 0, witness));
        }
    }
    collision
}

} // verus!
