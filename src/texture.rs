use vstd::prelude::*;

verus! {

/// Width and height, in pixels, of the sprite texture.
pub const TEXTURE_SIZE: usize = 256;

/// Bytes per pixel of the RGB24 sprite texture.
pub const BYTES_PER_PIXEL: usize = 3;

/// The pixel at row `y`, column `x` holds red `x`, green `y`, blue 0.
pub open spec fn gradient_at(buf: Seq<u8>, pitch: int, y: int, x: int) -> bool {
    &&& buf[y * pitch + 3 * x] == x as u8
    &&& buf[y * pitch + 3 * x + 1] == y as u8
    &&& buf[y * pitch + 3 * x + 2] == 0
}

proof fn lemma_offsets_apart(pitch: int, y: int, x: int, y2: int, x2: int)
    requires
        pitch >= 768,
        0 <= y2 <= y,
        0 <= x < 256,
        0 <= x2 < 256,
        y2 < y || x2 < x,
    ensures
        y2 * pitch + 3 * x2 + 2 < y * pitch + 3 * x,
{
    if y2 < y {
        assert(y * pitch - y2 * pitch >= pitch) by (nonlinear_arith)
            requires
                y2 < y,
                pitch >= 0,
        ;
    }
}

proof fn lemma_offset_bound(pitch: int, y: int, x: int)
    requires
        pitch >= 768,
        0 <= y < 256,
        0 <= x < 256,
    ensures
        0 <= y * pitch,
        y * pitch + 3 * x + 2 < 255 * pitch + 768,
{
    assert(0 <= y * pitch && y * pitch <= 255 * pitch) by (nonlinear_arith)
        requires
            0 <= y < 256,
            pitch >= 0,
    ;
}

/// Paints a red-green gradient into an RGB24 buffer whose rows start `pitch`
/// bytes apart: in each of the 256 rows and 256 columns, red is the column,
/// green the row and blue 0.
pub fn fill_gradient(buffer: &mut Vec<u8>, pitch: usize)
    requires
        pitch >= TEXTURE_SIZE * BYTES_PER_PIXEL,
        old(buffer)@.len() >= 255 * pitch + TEXTURE_SIZE * BYTES_PER_PIXEL,
    ensures
        final(buffer)@.len() == old(buffer)@.len(),
        forall|y: int, x: int|
            0 <= y < 256 && 0 <= x < 256 ==> #[trigger] gradient_at(final(buffer)@, pitch as int, y, x),
{
    let ghost p = pitch as int;
    let mut y: usize = 0;
    while y < TEXTURE_SIZE
        invariant
            0 <= y <= 256,
            p == pitch as int,
            p >= 768,
            buffer@.len() == old(buffer)@.len(),
            buffer@.len() >= 255 * p + 768,
            forall|y2: int, x2: int|
                0 <= y2 < y && 0 <= x2 < 256 ==> #[trigger] gradient_at(buffer@, p, y2, x2),
        decreases 256 - y,
    {
        let mut x: usize = 0;
        while x < TEXTURE_SIZE
            invariant
                0 <= y < 256,
                0 <= x <= 256,
                p == pitch as int,
                p >= 768,
                buffer@.len() == old(buffer)@.len(),
                buffer@.len() >= 255 * p + 768,
                forall|y2: int, x2: int|
                    (0 <= y2 < y && 0 <= x2 < 256) || (y2 == y && 0 <= x2 < x) ==> #[trigger] gradient_at(
                        buffer@,
                        p,
                        y2,
                        x2,
                    ),
            decreases 256 - x,
        {
            let n = buffer.len();
            proof {
                lemma_offset_bound(p, y as int, x as int);
                assert(y as int * p + 3 * x as int + 2 < n);
            }
            let offset = y * pitch + x * 3;
            let ghost before = buffer@;
            buffer.set(offset, x as u8);
            buffer.set(offset + 1, y as u8);
            buffer.set(offset + 2, 0);
            proof {
                assert forall|y2: int, x2: int|
                    (0 <= y2 < y && 0 <= x2 < 256) || (y2 == y && 0 <= x2 < x + 1) implies #[trigger] gradient_at(
                        buffer@,
                        p,
                        y2,
                        x2,
                    ) by {
                    if y2 != y || x2 != x {
                        assert(gradient_at(before, p, y2, x2));
                        lemma_offset_bound(p, y2, x2);
                        lemma_offsets_apart(p, y as int, x as int, y2, x2);
                        assert(buffer@[y2 * p + 3 * x2] == before[y2 * p + 3 * x2]);
                        assert(buffer@[y2 * p + 3 * x2 + 1] == before[y2 * p + 3 * x2 + 1]);
                        assert(buffer@[y2 * p + 3 * x2 + 2] == before[y2 * p + 3 * x2 + 2]);
                    }
                }
            }
            x += 1;
        }
        y += 1;
    }
}

} // verus!
