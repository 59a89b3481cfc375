use vstd::prelude::*;

verus! {

/// Column `col` (0 is the leftmost, 7 the rightmost) of the sprite row `row_byte` is lit.
pub open spec fn bit_set(row_byte: u8, col: int) -> bool {
    (row_byte >> ((7 - col) as u8)) & 1u8 == 1u8
}

/// Pixel `p` (row-major, 64 per row) lies under a lit pixel of the sprite whose rows
/// are read from `memory` at `i`, placed with its top-left corner at (`x0`, `y0`),
/// counting the first `rows` rows and then the first `cols` columns of the next row.
/// Pixels past the right or bottom edge of the display are not drawn.
pub open spec fn flips(memory: Seq<u8>, i: int, x0: int, y0: int, rows: int, cols: int, p: int) -> bool {
    let px = p % 64;
    let py = p / 64;
    &&& 0 <= p < 2048
    &&& x0 <= px < x0 + 8
    &&& y0 <= py
    &&& (py < y0 + rows || (py == y0 + rows && px < x0 + cols))
    &&& bit_set(memory[i + (py - y0)], px - x0)
}

/// Pixel `p` lies under a lit pixel of the `n`-row sprite at `i` drawn at
/// (`vx` mod 64, `vy` mod 32).
pub open spec fn sprite_covers(memory: Seq<u8>, i: u16, vx: u8, vy: u8, n: u16, p: int) -> bool {
    flips(memory, i as int, (vx % 64) as int, (vy % 32) as int, n as int, 0, p)
}

/// The display after the sprite is drawn: every pixel under a lit sprite pixel flips.
pub open spec fn screen_after_sprite(screen: Seq<bool>, memory: Seq<u8>, i: u16, vx: u8, vy: u8, n: u16) -> Seq<bool> {
    Seq::new(
        2048,
        |p: int| if sprite_covers(memory, i, vx, vy, n, p) { !screen[p] } else { screen[p] },
    )
}

/// Drawing the sprite turns at least one lit pixel of the display off.
pub open spec fn sprite_collides(screen: Seq<bool>, memory: Seq<u8>, i: u16, vx: u8, vy: u8, n: u16) -> bool {
    exists|p: int| #[trigger] sprite_covers(memory, i, vx, vy, n, p) && screen[p]
}

/// The pixel at column `x`, row `y` is stored at index `64 * y + x`, and that index
/// gives the column and row back.
pub proof fn lemma_pixel_coords(x: int, y: int)
    requires
        0 <= x < 64,
        0 <= y,
    ensures
        (64 * y + x) / 64 == y,
        (64 * y + x) % 64 == x,
{
    assert((64 * y + x) / 64 == y && (64 * y + x) % 64 == x) by (nonlinear_arith)
        requires
            0 <= x < 64,
            0 <= y,
    ;
}

/// Draws an `n`-row sprite read from `memory` at `i` with its top-left corner at
/// (`vx` mod 64, `vy` mod 32), flipping the display pixels under its lit pixels and
/// clipping at the right and bottom edges. Returns whether a lit pixel was turned off.
pub fn draw_sprite(memory: &[u8; 4096], i: u16, vx: u8, vy: u8, n: u16, screen: &mut [bool; 2048]) -> (collided: bool)
    requires
        n < 16,
        n == 0 || i + n <= 4096,
    ensures
        final(screen)@ == screen_after_sprite(old(screen)@, memory@, i, vx, vy, n),
        collided == sprite_collides(old(screen)@, memory@, i, vx, vy, n),
{
    let ghost s0 = screen@;
    let ghost mem = memory@;
    let x0: usize = (vx % 64) as usize;
    let y0: usize = (vy % 32) as usize;
    let mut x: usize = x0;
    let mut y: usize = y0;
    let mut i_val: u16 = i;
    let mut collided = false;
    let mut row: u16 = 0;
    while row < n
        invariant
            n < 16,
            n == 0 || i + n <= 4096,
            x0 < 64,
            y0 < 32,
            x0 == vx % 64,
            y0 == vy % 32,
            mem == memory@,
            s0.len() == 2048,
            row <= n,
            x == x0,
            y == y0 + row,
            i_val == i + row,
            forall|p: int|
                0 <= p < 2048 ==> screen@[p] == if flips(mem, i as int, x0 as int, y0 as int, row as int, 0, p) {
                    !s0[p]
                } else {
                    s0[p]
                },
            collided == exists|p: int| #[trigger] flips(mem, i as int, x0 as int, y0 as int, row as int, 0, p) && s0[p],
        decreases n - row,
    {
        let draw = memory[i_val as usize];
        let mut counter: usize = 0;
        while x <= 63 && counter <= 7 && y <= 31
            invariant
                x0 < 64,
                y0 < 32,
                row < n,
                n < 16,
                i + row < 4096,
                mem == memory@,
                draw == mem[i + row],
                s0.len() == 2048,
                counter <= 8,
                x == x0 + counter,
                x <= 64,
                y == y0 + row,
                forall|p: int|
                    0 <= p < 2048 ==> screen@[p] == if flips(mem, i as int, x0 as int, y0 as int, row as int, counter as int, p) {
                        !s0[p]
                    } else {
                        s0[p]
                    },
                collided == exists|p: int|
                    #[trigger] flips(mem, i as int, x0 as int, y0 as int, row as int, counter as int, p) && s0[p],
            decreases 8 - counter,
        {
            let ghost before = screen@;
            let ghost was = collided;
            let ghost here: int = 64 * y + x;
            proof {
                lemma_pixel_coords(x as int, y as int);
            }
            let lit = ((draw >> (7 - counter as u8)) & 1) == 1;
            if lit {
                let screen_val: usize = 64 * y + x;
                if screen[screen_val] {
                    collided = true;
                }
                screen[screen_val] = !screen[screen_val];
            }
            x += 1;
            counter += 1;
            proof {
                assert(lit == bit_set(mem[i + row], counter - 1));
                assert forall|p: int|
                    flips(mem, i as int, x0 as int, y0 as int, row as int, counter as int, p) <==> (
                        flips(mem, i as int, x0 as int, y0 as int, row as int, counter - 1, p) || (lit && p == here)
                    ) by {
                    if p == here {
                        assert(p / 64 == y && p % 64 == x - 1);
                    }
                    if 0 <= p < 2048 && p / 64 == y && p % 64 == x - 1 {
                        assert(p == 64 * (p / 64) + p % 64);
                    }
                }
                assert(!flips(mem, i as int, x0 as int, y0 as int, row as int, counter - 1, here));
                if lit {
                    if before[here] {
                        assert(s0[here]);
                        assert(flips(mem, i as int, x0 as int, y0 as int, row as int, counter as int, here));
                    }
                }
                if was {
                    let w = choose|p: int| #[trigger] flips(mem, i as int, x0 as int, y0 as int, row as int, counter - 1, p) && s0[p];
                    assert(flips(mem, i as int, x0 as int, y0 as int, row as int, counter as int, w));
                }
                if collided && !was {
                    assert(flips(mem, i as int, x0 as int, y0 as int, row as int, counter as int, here) && s0[here]);
                }
                if !collided {
                    assert forall|p: int| !(#[trigger] flips(mem, i as int, x0 as int, y0 as int, row as int, counter as int, p) && s0[p]) by {
                        if p == here && lit {
                            assert(!before[here]);
                        }
                    }
                }
            }
        }
        proof {
            assert forall|p: int|
                flips(mem, i as int, x0 as int, y0 as int, row as int, counter as int, p) <==>
                flips(mem, i as int, x0 as int, y0 as int, row + 1, 0, p) by {
                if 0 <= p < 2048 {
                    assert(p / 64 < 32 && p % 64 < 64);
                }
            }
        }
        i_val += 1;
        x -= counter;
        y += 1;
        row += 1;
    }
    assert(screen@ =~= screen_after_sprite(s0, mem, i, vx, vy, n));
    collided
}

} // verus!
