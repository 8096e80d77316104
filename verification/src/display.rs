use vstd::prelude::*;

verus! {

/// The colour of a lit pixel, as `0RGB`.
pub const PIXEL_ON: u32 = 0x00FFFFFF;

/// The colour of a dark pixel.
pub const PIXEL_OFF: u32 = 0x00000000;

/// The colour in which a pixel of the machine is shown.
pub open spec fn pixel_color(pixel: u8) -> u32 {
    if pixel != 0 {
        PIXEL_ON
    } else {
        PIXEL_OFF
    }
}

/// Writes the colour of each pixel of `vram` to the same place in `buffer`.
/// What `buffer` holds beyond the length of `vram` stays.
pub fn vram_to_buf(buffer: &mut Vec<u32>, vram: &Vec<u8>)
    requires
        vram@.len() <= old(buffer)@.len(),
    ensures
        final(buffer)@.len() == old(buffer)@.len(),
        forall|p: int| 0 <= p < vram@.len() ==> final(buffer)@[p] == pixel_color(vram@[p]),
        forall|p: int|
            vram@.len() <= p < old(buffer)@.len() ==> final(buffer)@[p] == old(buffer)@[p],
{
    let mut p: usize = 0;
    while p < vram.len()
        invariant
            p <= vram@.len(),
            vram@.len() <= buffer@.len(),
            buffer@.len() == old(buffer)@.len(),
            forall|q: int| 0 <= q < p ==> buffer@[q] == pixel_color(vram@[q]),
            forall|q: int| p <= q < buffer@.len() ==> buffer@[q] == old(buffer)@[q],
        decreases vram@.len() - p,
    {
        buffer[p] = if vram[p] != 0 {
            PIXEL_ON
        } else {
            PIXEL_OFF
        };
        p += 1;
    }
}

} // verus!
