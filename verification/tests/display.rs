use chip8::display::{vram_to_buf, PIXEL_OFF, PIXEL_ON};

#[test]
fn vram_to_buf_colours_each_pixel() {
    let vram = vec![0u8, 1, 1, 0];
    let mut buffer = vec![7u32; 4];
    vram_to_buf(&mut buffer, &vram);
    assert_eq!(buffer, vec![0x00000000, 0x00FFFFFF, 0x00FFFFFF, 0x00000000]);
    assert_eq!(PIXEL_ON, 0x00FFFFFF);
    assert_eq!(PIXEL_OFF, 0);
}

#[test]
fn vram_to_buf_leaves_what_lies_beyond_the_pixels() {
    let vram = vec![1u8, 0];
    let mut buffer = vec![5u32; 4];
    vram_to_buf(&mut buffer, &vram);
    assert_eq!(buffer, vec![0x00FFFFFF, 0, 5, 5]);
}

#[test]
fn vram_to_buf_shows_any_nonzero_pixel_as_lit() {
    let vram = vec![2u8, 255];
    let mut buffer = vec![0u32; 2];
    vram_to_buf(&mut buffer, &vram);
    assert_eq!(buffer, vec![0x00FFFFFF, 0x00FFFFFF]);
}
