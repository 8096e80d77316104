use vstd::prelude::*;
use vstd::arithmetic::div_mod::{lemma_fundamental_div_mod, lemma_fundamental_div_mod_converse};
use vstd::arithmetic::mul::{lemma_mul_inequality, lemma_mul_is_commutative};

verus! {

/// Width of a sprite in pixels: one bit of a sprite byte per pixel.
pub const SPRITE_WIDTH: usize = 8;

/// A pixel after a set sprite bit has been XORed into it.
pub open spec fn flip(pixel: u8) -> u8 {
    if pixel == 1 {
        0
    } else {
        1
    }
}

/// Whether the sprite has a set bit in its row `dr` at column `dc`, counted
/// from the most significant bit of the row's byte.
pub open spec fn sprite_bit(sprite: Seq<u8>, dr: int, dc: int) -> bool {
    0 <= dr < sprite.len() && 0 <= dc < SPRITE_WIDTH && (sprite[dr] >> ((7 - dc) as u8)) & 1 == 1
}

/// Whether the sprite, with its top-left corner at row `row0` and column
/// `col0`, has a set bit over pixel `p` of a row-major buffer `width` wide.
/// Rows and columns are not reduced modulo the buffer: what falls off the
/// right or bottom edge lies over no pixel.
pub open spec fn lit(sprite: Seq<u8>, width: int, row0: int, col0: int, p: int) -> bool {
    width > 0 && sprite_bit(sprite, p / width - row0, p % width - col0)
}

/// The buffer after the sprite has been XORed into it.
pub open spec fn blit(pixels: Seq<u8>, sprite: Seq<u8>, width: int, row0: int, col0: int) -> Seq<
    u8,
> {
    Seq::new(
        pixels.len(),
        |p: int|
            if lit(sprite, width, row0, col0, p) {
                flip(pixels[p])
            } else {
                pixels[p]
            },
    )
}

/// Whether drawing the sprite changes any pixel.
pub open spec fn touches(
    pixels: Seq<u8>,
    sprite: Seq<u8>,
    width: int,
    row0: int,
    col0: int,
) -> bool {
    exists|p: int| 0 <= p < pixels.len() && lit(sprite, width, row0, col0, p)
}

/// Whether drawing the sprite turns a lit pixel off.
pub open spec fn collides(
    pixels: Seq<u8>,
    sprite: Seq<u8>,
    width: int,
    row0: int,
    col0: int,
) -> bool {
    exists|p: int| 0 <= p < pixels.len() && lit(sprite, width, row0, col0, p) && pixels[p] == 1
}

/// Whether every pixel is 0 or 1.
pub open spec fn is_monochrome(pixels: Seq<u8>) -> bool {
    forall|p: int| 0 <= p < pixels.len() ==> #[trigger] pixels[p] <= 1
}

/// The part of `lit` that lies in sprite rows before `dr`, or in row `dr`
/// before column `dc`: what the drawing loops have passed.
spec fn lit_before(
    sprite: Seq<u8>,
    width: int,
    row0: int,
    col0: int,
    dr: int,
    dc: int,
    p: int,
) -> bool {
    lit(sprite, width, row0, col0, p) && (p / width - row0 < dr || (p / width - row0 == dr && p
        % width - col0 < dc))
}

/// The pixel at row `r`, column `c` of a `width` by `height` buffer has an
/// index inside the buffer, from which `r` and `c` can be read back.
proof fn lemma_cell_index(width: int, height: int, r: int, c: int)
    requires
        0 <= r < height,
        0 <= c < width,
    ensures
        0 <= r * width + c < width * height,
        (r * width + c) / width == r,
        (r * width + c) % width == c,
{
    lemma_fundamental_div_mod_converse(r * width + c, width, r, c);
    lemma_mul_inequality(r + 1, height, width);
    lemma_mul_is_commutative(width, height);
    assert((r + 1) * width == r * width + width) by (nonlinear_arith);
    assert(0 <= r * width) by (nonlinear_arith)
        requires
            0 <= r,
            0 <= width,
    ;
}

/// An index inside a `width` by `height` buffer names a row and a column
/// inside it.
proof fn lemma_index_cell(width: int, height: int, p: int)
    requires
        0 < width,
        0 <= p < width * height,
    ensures
        0 <= p / width < height,
        0 <= p % width < width,
        p == (p / width) * width + p % width,
{
    lemma_fundamental_div_mod(p, width);
    lemma_mul_is_commutative(width, p / width);
    let q = p / width;
    assert(0 <= p % width < width);
    if q >= height {
        lemma_mul_inequality(height, q, width);
        lemma_mul_is_commutative(width, height);
    }
    if q < 0 {
        lemma_mul_inequality(q, -1, width);
    }
}

/// What the drawing loops keep true: `now` is `before` with the part of the
/// sprite drawn that lies in sprite rows before `dr`, or in row `dr` before
/// column `dc`.
spec fn drawn_before(
    before: Seq<u8>,
    now: Seq<u8>,
    sprite: Seq<u8>,
    width: int,
    row0: int,
    col0: int,
    dr: int,
    dc: int,
) -> bool {
    &&& now.len() == before.len()
    &&& forall|p: int|
        0 <= p < before.len() ==> #[trigger] now[p] == (if lit_before(
            sprite,
            width,
            row0,
            col0,
            dr,
            dc,
            p,
        ) {
            flip(before[p])
        } else {
            before[p]
        })
}

/// Whether the part of the sprite that the loops have passed lies over a lit
/// pixel of `before`.
spec fn collides_before(
    before: Seq<u8>,
    sprite: Seq<u8>,
    width: int,
    row0: int,
    col0: int,
    dr: int,
    dc: int,
) -> bool {
    exists|p: int|
        0 <= p < before.len() && lit_before(sprite, width, row0, col0, dr, dc, p) && before[p]
            == 1
}

/// Whether the part of the sprite that the loops have passed lies over any
/// pixel.
spec fn touches_before(
    before: Seq<u8>,
    sprite: Seq<u8>,
    width: int,
    row0: int,
    col0: int,
    dr: int,
    dc: int,
) -> bool {
    exists|p: int| 0 <= p < before.len() && lit_before(sprite, width, row0, col0, dr, dc, p)
}

/// XORs `sprite` into the row-major buffer `vram`, one byte per row and one
/// bit per pixel from the most significant bit on, with the sprite's top-left
/// corner at row `row0`, column `col0`. Rows and columns that fall outside the
/// buffer are dropped. Returns whether a lit pixel was turned off, and whether
/// any pixel changed.
pub fn draw_sprite(
    vram: &mut Vec<u8>,
    width: usize,
    height: usize,
    sprite: &[u8],
    row0: usize,
    col0: usize,
) -> (hit: (bool, bool))
    requires
        old(vram)@.len() == width * height,
    ensures
        final(vram)@ == blit(old(vram)@, sprite@, width as int, row0 as int, col0 as int),
        hit.0 == collides(old(vram)@, sprite@, width as int, row0 as int, col0 as int),
        hit.1 == touches(old(vram)@, sprite@, width as int, row0 as int, col0 as int),
        is_monochrome(old(vram)@) ==> is_monochrome(final(vram)@),
{
    let ghost before = vram@;
    let ghost w = width as int;
    let ghost h = height as int;
    let ghost r0 = row0 as int;
    let ghost c0 = col0 as int;
    let total = vram.len();
    let rows: usize = if row0 >= height {
        0
    } else if sprite.len() < height - row0 {
        sprite.len()
    } else {
        height - row0
    };
    let cols: usize = if col0 >= width {
        0
    } else if SPRITE_WIDTH < width - col0 {
        SPRITE_WIDTH
    } else {
        width - col0
    };
    let mut collision = false;
    let mut touched = false;
    let mut dr: usize = 0;
    while dr < rows
        invariant
            dr <= rows <= sprite@.len(),
            rows == 0 || row0 + rows <= height,
            rows == sprite@.len() || row0 + rows >= height,
            cols <= SPRITE_WIDTH,
            cols == 0 || col0 + cols <= width,
            cols == SPRITE_WIDTH || col0 + cols >= width,
            before.len() == width * height == total,
            w == width && h == height && r0 == row0 && c0 == col0,
            drawn_before(before, vram@, sprite@, w, r0, c0, dr as int, 0),
            collision == collides_before(before, sprite@, w, r0, c0, dr as int, 0),
            touched == touches_before(before, sprite@, w, r0, c0, dr as int, 0),
        decreases rows - dr,
    {
        let byte = sprite[dr];
        let mut dc: usize = 0;
        while dc < cols
            invariant
                dr < rows <= sprite@.len(),
                row0 + rows <= height,
                dc <= cols <= SPRITE_WIDTH,
                cols == 0 || col0 + cols <= width,
                before.len() == width * height == total,
                w == width && h == height && r0 == row0 && c0 == col0,
                byte == sprite@[dr as int],
                drawn_before(before, vram@, sprite@, w, r0, c0, dr as int, dc as int),
                collision == collides_before(before, sprite@, w, r0, c0, dr as int, dc as int),
                touched == touches_before(before, sprite@, w, r0, c0, dr as int, dc as int),
            decreases cols - dc,
        {
            let shift: u8 = 7 - (dc as u8);
            let bit_set = (byte >> shift) & 1 == 1;
            proof {
                lemma_cell_index(w, h, r0 + dr, c0 + dc);
            }
            let pos = (row0 + dr) * width + (col0 + dc);
            if bit_set {
                if vram[pos] == 1 {
                    vram[pos] = 0;
                    collision = true;
                } else {
                    vram[pos] = 1;
                }
                touched = true;
            }
            proof {
                // The step passes exactly one cell of the sprite, the one over `pos`.
                let next = dc + 1;
                assert(bit_set == sprite_bit(sprite@, dr as int, dc as int));
                assert forall|p: int|
                    #![trigger lit_before(sprite@, w, r0, c0, dr as int, next, p)]
                    #![trigger lit_before(sprite@, w, r0, c0, dr as int, dc as int, p)]
                    0 <= p < before.len() implies (lit_before(
                    sprite@,
                    w,
                    r0,
                    c0,
                    dr as int,
                    next,
                    p,
                ) <==> lit_before(sprite@, w, r0, c0, dr as int, dc as int, p) || (p == pos
                    && bit_set)) by {
                    lemma_index_cell(w, h, p);
                }
                if bit_set {
                    assert(lit_before(sprite@, w, r0, c0, dr as int, next, pos as int));
                }
            }
            dc += 1;
        }
        proof {
            // Columns past `cols` lie outside the buffer, so the row is done.
            let next = dr + 1;
            assert forall|p: int|
                #![trigger lit_before(sprite@, w, r0, c0, next, 0, p)]
                #![trigger lit_before(sprite@, w, r0, c0, dr as int, cols as int, p)]
                0 <= p < before.len() implies (lit_before(sprite@, w, r0, c0, next, 0, p)
                <==> lit_before(sprite@, w, r0, c0, dr as int, cols as int, p)) by {
                lemma_index_cell(w, h, p);
            }
        }
        dr += 1;
    }
    proof {
        // Rows past `rows` lie outside the buffer or the sprite, so all is drawn.
        assert forall|p: int| 0 <= p < before.len() implies (lit(sprite@, w, r0, c0, p)
            <==> lit_before(sprite@, w, r0, c0, rows as int, 0, p)) by {
            if w > 0 {
                lemma_index_cell(w, h, p);
            }
        }
        assert(vram@ =~= blit(before, sprite@, w, r0, c0));
    }
    (collision, touched)
}

/// A sprite changes pixels only under its own 8-column box: a changed pixel
/// lies in a row and a column that the sprite covers, counted from its corner
/// without wrapping.
pub proof fn lemma_blit_stays_in_box(
    pixels: Seq<u8>,
    sprite: Seq<u8>,
    width: int,
    height: int,
    row0: int,
    col0: int,
    p: int,
)
    requires
        pixels.len() == width * height,
        0 <= p < pixels.len(),
        blit(pixels, sprite, width, row0, col0)[p] != pixels[p],
    ensures
        row0 <= p / width < row0 + sprite.len(),
        col0 <= p % width < col0 + SPRITE_WIDTH,
        p / width < height,
        p % width < width,
{
    lemma_index_cell(width, height, p);
}

/// A sprite whose corner is in the last column changes pixels of that column
/// only: nothing of it comes back in at column 0, or anywhere else, and the
/// buffer keeps its length.
pub proof fn lemma_blit_clips_at_last_column(
    pixels: Seq<u8>,
    sprite: Seq<u8>,
    width: int,
    height: int,
    row0: int,
    p: int,
)
    requires
        0 < width,
        pixels.len() == width * height,
        0 <= p < pixels.len(),
        p % width != width - 1,
    ensures
        blit(pixels, sprite, width, row0, width - 1).len() == pixels.len(),
        blit(pixels, sprite, width, row0, width - 1)[p] == pixels[p],
{
    lemma_index_cell(width, height, p);
}

/// Drawing a sprite twice at one place restores a buffer of 0s and 1s. If
/// the first drawing turned no pixel off, the second turns off every pixel
/// that the first turned on, so it reports a collision exactly if the sprite
/// touches the buffer at all.
pub proof fn lemma_blit_twice_restores(
    pixels: Seq<u8>,
    sprite: Seq<u8>,
    width: int,
    row0: int,
    col0: int,
)
    requires
        is_monochrome(pixels),
    ensures
        blit(blit(pixels, sprite, width, row0, col0), sprite, width, row0, col0) == pixels,
        !collides(pixels, sprite, width, row0, col0) ==> (collides(
            blit(pixels, sprite, width, row0, col0),
            sprite,
            width,
            row0,
            col0,
        ) <==> touches(pixels, sprite, width, row0, col0)),
{
    let once = blit(pixels, sprite, width, row0, col0);
    let twice = blit(once, sprite, width, row0, col0);
    assert(twice =~= pixels);
    if !collides(pixels, sprite, width, row0, col0) {
        if touches(pixels, sprite, width, row0, col0) {
            let p = choose|p: int| 0 <= p < pixels.len() && lit(sprite, width, row0, col0, p);
            assert(pixels[p] != 1);
            assert(once[p] == 1);
        }
        if collides(once, sprite, width, row0, col0) {
            let p = choose|p: int|
                0 <= p < once.len() && lit(sprite, width, row0, col0, p) && once[p] == 1;
            assert(0 <= p < pixels.len() && lit(sprite, width, row0, col0, p));
        }
    }
}

} // verus!
