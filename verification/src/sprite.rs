//! Drawing sprites: the loop that XORs a sprite onto the screen, proved to
//! give the screen and the collision flag that the model describes.
use vstd::prelude::*;

use crate::display::{
    lemma_index_pixel, lemma_pixel_after_flip, on_screen, pixel_at, Display, BUFF_LENGTH,
};
use crate::machine::{
    address, drawn_pixels, lemma_address_mask, sprite_bit, sprite_collides, sprite_covers,
    sprite_visible, MEMORY_SIZE,
};

verus! {

/// Whether the sprite covers (px, py) and the drawing loop, which goes row by
/// row and left to right, has already passed it after `k` of its pixels.
spec fn covered_before(
    memory: Seq<u8>,
    i: u16,
    vx: int,
    vy: int,
    n: int,
    k: int,
    px: int,
    py: int,
) -> bool {
    sprite_covers(memory, i, vx, vy, n, px, py) && (py - vy) * 8 + (px - vx) < k
}

/// Whether the drawing loop has passed a covered on-screen pixel.
spec fn any_covered(memory: Seq<u8>, i: u16, vx: int, vy: int, n: int, k: int) -> bool {
    exists|px: int, py: int|
        #![trigger covered_before(memory, i, vx, vy, n, k, px, py)]
        on_screen(px, py) && covered_before(memory, i, vx, vy, n, k, px, py)
}

/// Whether the drawing loop has passed a covered pixel that was lit in `pixels`.
spec fn any_collision(
    pixels: Seq<bool>,
    memory: Seq<u8>,
    i: u16,
    vx: int,
    vy: int,
    n: int,
    k: int,
) -> bool {
    exists|px: int, py: int|
        #![trigger covered_before(memory, i, vx, vy, n, k, px, py)]
        on_screen(px, py) && covered_before(memory, i, vx, vy, n, k, px, py) && pixel_at(
            pixels,
            px,
            py,
        )
}

/// Passing the pixel at column `xpix` of row `yline` adds that pixel, when
/// the sprite covers it, and nothing else.
proof fn lemma_cover_step(
    memory: Seq<u8>,
    i: u16,
    vx: int,
    vy: int,
    n: int,
    yline: int,
    xpix: int,
    px: int,
    py: int,
)
    requires
        0 <= yline < n,
        0 <= xpix < 8,
    ensures
        covered_before(memory, i, vx, vy, n, 8 * yline + xpix + 1, px, py) == (covered_before(
            memory,
            i,
            vx,
            vy,
            n,
            8 * yline + xpix,
            px,
            py,
        ) || (px == vx + xpix && py == vy + yline && sprite_bit(
            memory[address(i + yline)],
            xpix,
        ))),
        !covered_before(memory, i, vx, vy, n, 8 * yline + xpix, vx + xpix, vy + yline),
{
}

/// A sprite row has its bit `col` set, counting from the most significant.
proof fn lemma_sprite_bit(data: u8, col: u8)
    requires
        col < 8,
    ensures
        (data & (0x80u8 >> col) != 0) == sprite_bit(data, col as int),
{
    assert((data & (0x80u8 >> col) != 0) == ((data >> ((7 - col) as u8)) & 1u8 == 1u8))
        by (bit_vector)
        requires
            col < 8,
    ;
}

/// XORs the `n`-row sprite stored at `i` onto the display with its top-left
/// corner at (vx, vy). Returns whether a lit pixel was erased.
pub(crate) fn draw_sprite(
    display: &mut Display,
    memory: &[u8; MEMORY_SIZE],
    i: u16,
    vx: u8,
    vy: u8,
    n: u8,
) -> (collision: bool)
    ensures
        final(display)@.pixels == drawn_pixels(
            old(display)@.pixels,
            memory@,
            i,
            vx as int,
            vy as int,
            n as int,
        ),
        final(display)@.invalidated == (old(display)@.invalidated || sprite_visible(
            memory@,
            i,
            vx as int,
            vy as int,
            n as int,
        )),
        collision == sprite_collides(old(display)@.pixels, memory@, i, vx as int, vy as int, n as int),
{
    let ghost mem = memory@;
    let ghost old_pixels = display@.pixels;
    let ghost old_inv = display@.invalidated;
    let ghost (gx, gy, gn) = (vx as int, vy as int, n as int);
    proof {
        display.lemma_pixel_count();
    }
    let mut collision = false;
    let mut yline: usize = 0;
    while yline < n as usize
        invariant
            gx == vx,
            gy == vy,
            gn == n,
            mem == memory@,
            yline <= n,
            display@.pixels.len() == BUFF_LENGTH,
            forall|px: int, py: int|
                on_screen(px, py) ==> #[trigger] pixel_at(display@.pixels, px, py) == (pixel_at(
                    old_pixels,
                    px,
                    py,
                ) != covered_before(mem, i, gx, gy, gn, 8 * yline, px, py)),
            display@.invalidated == (old_inv || any_covered(mem, i, gx, gy, gn, 8 * yline)),
            collision == any_collision(old_pixels, mem, i, gx, gy, gn, 8 * yline),
        decreases n - yline,
    {
        let addr = (i as usize + yline) & 0xFFF;
        proof {
            lemma_address_mask((i as usize + yline) as usize);
        }
        let data = memory[addr];
        let mut xpix: u8 = 0;
        while xpix < 8
            invariant
                gx == vx,
                gy == vy,
                gn == n,
                mem == memory@,
                yline < n,
                xpix <= 8,
                data == mem[address(i + yline)],
                display@.pixels.len() == BUFF_LENGTH,
                forall|px: int, py: int|
                    on_screen(px, py) ==> #[trigger] pixel_at(display@.pixels, px, py) == (
                    pixel_at(old_pixels, px, py) != covered_before(
                        mem,
                        i,
                        gx,
                        gy,
                        gn,
                        8 * yline + xpix,
                        px,
                        py,
                    )),
                display@.invalidated == (old_inv || any_covered(mem, i, gx, gy, gn, 8 * yline + xpix)),
                collision == any_collision(old_pixels, mem, i, gx, gy, gn, 8 * yline + xpix),
            decreases 8 - xpix,
        {
            let ghost k = 8 * yline + xpix;
            let ghost x0 = vx + xpix;
            let ghost y0 = vy + yline;
            let ghost pixels0 = display@.pixels;
            let ghost inv0 = display@.invalidated;
            let ghost coll0 = collision;
            let bit = data & (0x80u8 >> xpix) != 0;
            proof {
                lemma_sprite_bit(data, xpix);
                lemma_cover_step(mem, i, gx, gy, gn, yline as int, xpix as int, x0, y0);
            }
            if bit {
                let px = vx as usize + xpix as usize;
                let py = vy as usize + yline;
                if display.get(px, py) {
                    collision = true;
                }
                display.flip(px, py);
            }
            proof {
                let hit = bit && on_screen(x0, y0);
                assert forall|px: int, py: int| on_screen(px, py) implies #[trigger] pixel_at(
                    display@.pixels,
                    px,
                    py,
                ) == (pixel_at(old_pixels, px, py) != covered_before(
                    mem,
                    i,
                    gx,
                    gy,
                    gn,
                    k + 1,
                    px,
                    py,
                )) by {
                    lemma_cover_step(mem, i, gx, gy, gn, yline as int, xpix as int, px, py);
                    if bit {
                        lemma_pixel_after_flip(pixels0, x0, y0, px, py);
                    }
                    assert(pixel_at(pixels0, px, py) == (pixel_at(old_pixels, px, py)
                        != covered_before(mem, i, gx, gy, gn, k, px, py)));
                }
                let ex0 = any_covered(mem, i, gx, gy, gn, k);
                let ex1 = any_covered(mem, i, gx, gy, gn, k + 1);
                assert(ex1 == (ex0 || hit)) by {
                    if ex0 {
                        let (wx, wy) = choose|px: int, py: int|
                            #![trigger covered_before(mem, i, gx, gy, gn, k, px, py)]
                            on_screen(px, py) && covered_before(mem, i, gx, gy, gn, k, px, py);
                        lemma_cover_step(mem, i, gx, gy, gn, yline as int, xpix as int, wx, wy);
                    }
                    if ex1 {
                        let (wx, wy) = choose|px: int, py: int|
                            #![trigger covered_before(mem, i, gx, gy, gn, k + 1, px, py)]
                            on_screen(px, py) && covered_before(mem, i, gx, gy, gn, k + 1, px, py);
                        lemma_cover_step(mem, i, gx, gy, gn, yline as int, xpix as int, wx, wy);
                    }
                }
                let cx0 = any_collision(old_pixels, mem, i, gx, gy, gn, k);
                let cx1 = any_collision(old_pixels, mem, i, gx, gy, gn, k + 1);
                assert(cx1 == (cx0 || (hit && pixel_at(old_pixels, x0, y0)))) by {
                    if cx0 {
                        let (wx, wy) = choose|px: int, py: int|
                            #![trigger covered_before(mem, i, gx, gy, gn, k, px, py)]
                            on_screen(px, py) && covered_before(mem, i, gx, gy, gn, k, px, py)
                                && pixel_at(old_pixels, px, py);
                        lemma_cover_step(mem, i, gx, gy, gn, yline as int, xpix as int, wx, wy);
                    }
                    if cx1 {
                        let (wx, wy) = choose|px: int, py: int|
                            #![trigger covered_before(mem, i, gx, gy, gn, k + 1, px, py)]
                            on_screen(px, py) && covered_before(mem, i, gx, gy, gn, k + 1, px, py)
                                && pixel_at(old_pixels, px, py);
                        lemma_cover_step(mem, i, gx, gy, gn, yline as int, xpix as int, wx, wy);
                    }
                }
                if hit {
                    assert(pixel_at(pixels0, x0, y0) == pixel_at(old_pixels, x0, y0));
                }
            }
            xpix = xpix + 1;
        }
        yline = yline + 1;
    }
    proof {
        assert forall|px: int, py: int|
            covered_before(mem, i, gx, gy, gn, 8 * gn, px, py) == sprite_covers(
                mem,
                i,
                gx,
                gy,
                gn,
                px,
                py,
            ) by {}
        assert(display@.pixels =~= drawn_pixels(old_pixels, mem, i, gx, gy, gn)) by {
            assert forall|p: int| 0 <= p < BUFF_LENGTH implies display@.pixels[p] == drawn_pixels(
                old_pixels,
                mem,
                i,
                gx,
                gy,
                gn,
            )[p] by {
                lemma_index_pixel(p);
                assert(pixel_at(display@.pixels, p % 64, p / 64) == (pixel_at(
                    old_pixels,
                    p % 64,
                    p / 64,
                ) != covered_before(mem, i, gx, gy, gn, 8 * gn, p % 64, p / 64)));
            }
        }
        let ex_n = any_covered(mem, i, gx, gy, gn, 8 * gn);
        assert(ex_n == sprite_visible(mem, i, gx, gy, gn)) by {
            if ex_n {
                let (wx, wy) = choose|px: int, py: int|
                    #![trigger covered_before(mem, i, gx, gy, gn, 8 * gn, px, py)]
                    on_screen(px, py) && covered_before(mem, i, gx, gy, gn, 8 * gn, px, py);
                assert(sprite_covers(mem, i, gx, gy, gn, wx, wy));
            }
            if sprite_visible(mem, i, gx, gy, gn) {
                let (wx, wy) = choose|px: int, py: int|
                    #![trigger sprite_covers(mem, i, gx, gy, gn, px, py)]
                    on_screen(px, py) && sprite_covers(mem, i, gx, gy, gn, px, py);
                assert(covered_before(mem, i, gx, gy, gn, 8 * gn, wx, wy));
            }
        }
        let cx_n = any_collision(old_pixels, mem, i, gx, gy, gn, 8 * gn);
        assert(cx_n == sprite_collides(old_pixels, mem, i, gx, gy, gn)) by {
            if cx_n {
                let (wx, wy) = choose|px: int, py: int|
                    #![trigger covered_before(mem, i, gx, gy, gn, 8 * gn, px, py)]
                    on_screen(px, py) && covered_before(mem, i, gx, gy, gn, 8 * gn, px, py)
                        && pixel_at(old_pixels, px, py);
                assert(sprite_covers(mem, i, gx, gy, gn, wx, wy));
            }
            if sprite_collides(old_pixels, mem, i, gx, gy, gn) {
                let (wx, wy) = choose|px: int, py: int|
                    #![trigger sprite_covers(mem, i, gx, gy, gn, px, py)]
                    on_screen(px, py) && sprite_covers(mem, i, gx, gy, gn, px, py) && pixel_at(
                        old_pixels,
                        px,
                        py,
                    );
                assert(covered_before(mem, i, gx, gy, gn, 8 * gn, wx, wy));
            }
        }
    }
    collision
}

} // verus!
