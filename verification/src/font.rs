//! The sixteen built-in 5-byte hexadecimal glyphs, and the routine that
//! copies them into machine memory.

use vstd::prelude::*;

verus! {

/// Each glyph is five bytes tall.
pub const SPRITE_BYTES: usize = 5;

/// How many bytes the whole glyph table occupies: sixteen five-byte glyphs.
pub const ALL_CHARS_BYTES: usize = 80;

/// The five rows of the built-in glyph for hexadecimal digit `d`.
pub open spec fn glyph_spec(d: int) -> Seq<u8> {
    if d == 0 {
        seq![0xf0, 0x90, 0x90, 0x90, 0xf0]
    } else if d == 1 {
        seq![0x20, 0x60, 0x20, 0x20, 0x70]
    } else if d == 2 {
        seq![0xf0, 0x10, 0xf0, 0x80, 0xf0]
    } else if d == 3 {
        seq![0xf0, 0x10, 0xf0, 0x10, 0xf0]
    } else if d == 4 {
        seq![0x90, 0x90, 0xf0, 0x10, 0x10]
    } else if d == 5 {
        seq![0xf0, 0x80, 0xf0, 0x10, 0xf0]
    } else if d == 6 {
        seq![0xf0, 0x80, 0xf0, 0x90, 0xf0]
    } else if d == 7 {
        seq![0xf0, 0x10, 0x20, 0x40, 0x40]
    } else if d == 8 {
        seq![0xf0, 0x90, 0xf0, 0x90, 0xf0]
    } else if d == 9 {
        seq![0xf0, 0x90, 0xf0, 0x10, 0xf0]
    } else if d == 10 {
        seq![0xf0, 0x90, 0xf0, 0x90, 0x90]
    } else if d == 11 {
        seq![0xe0, 0x90, 0xe0, 0x90, 0xe0]
    } else if d == 12 {
        seq![0xf0, 0x80, 0x80, 0x80, 0x90]
    } else if d == 13 {
        seq![0xe0, 0x90, 0x90, 0x90, 0xe0]
    } else if d == 14 {
        seq![0xf0, 0x80, 0xf0, 0x80, 0xf0]
    } else {
        seq![0xf0, 0x80, 0xf0, 0x80, 0x80]
    }
}

/// The five rows of the glyph for digit `d`.
pub fn glyph(d: u8) -> (r: [u8; 5])
    requires
        d <= 15,
    ensures
        r@ == glyph_spec(d as int),
{
    let r: [u8; 5] = match d {
        0 => [0xf0, 0x90, 0x90, 0x90, 0xf0],
        1 => [0x20, 0x60, 0x20, 0x20, 0x70],
        2 => [0xf0, 0x10, 0xf0, 0x80, 0xf0],
        3 => [0xf0, 0x10, 0xf0, 0x10, 0xf0],
        4 => [0x90, 0x90, 0xf0, 0x10, 0x10],
        5 => [0xf0, 0x80, 0xf0, 0x10, 0xf0],
        6 => [0xf0, 0x80, 0xf0, 0x90, 0xf0],
        7 => [0xf0, 0x10, 0x20, 0x40, 0x40],
        8 => [0xf0, 0x90, 0xf0, 0x90, 0xf0],
        9 => [0xf0, 0x90, 0xf0, 0x10, 0xf0],
        10 => [0xf0, 0x90, 0xf0, 0x90, 0x90],
        11 => [0xe0, 0x90, 0xe0, 0x90, 0xe0],
        12 => [0xf0, 0x80, 0x80, 0x80, 0x90],
        13 => [0xe0, 0x90, 0x90, 0x90, 0xe0],
        14 => [0xf0, 0x80, 0xf0, 0x80, 0xf0],
        _ => [0xf0, 0x80, 0xf0, 0x80, 0x80],
    };
    proof {
        assert(r@ =~= glyph_spec(d as int));
    }
    r
}

/// Copies the sixteen glyphs into `m`, one after another, starting at
/// `start`; bytes outside `start..start + 80` are untouched.
pub fn copy_chars(m: &mut Vec<u8>, start: usize)
    requires
        old(m).len() >= start + 80,
    ensures
        final(m).len() == old(m).len(),
        forall|d: int, j: int|
            0 <= d < 16 && 0 <= j < 5 ==> final(m)@[start + 5 * d + j] == glyph_spec(d)[j],
        forall|k: int|
            0 <= k < final(m).len() && !(start <= k < start + 80) ==> final(m)@[k] == old(m)@[k],
{
    let mut d: usize = 0;
    while d < 16
        invariant
            m.len() == old(m).len() >= start + 80,
            d <= 16,
            forall|e: int, j: int|
                0 <= e < d && 0 <= j < 5 ==> m@[start + 5 * e + j] == glyph_spec(e)[j],
            forall|k: int| 0 <= k < m.len() && !(start <= k < start + 5 * d) ==> m@[k] == old(m)@[k],
        decreases 16 - d,
    {
        let g = glyph(d as u8);
        let mut j: usize = 0;
        while j < 5
            invariant
                m.len() == old(m).len() >= start + 80,
                d < 16,
                j <= 5,
                g@ == glyph_spec(d as int),
                forall|e: int, jj: int|
                    0 <= e < d && 0 <= jj < 5 ==> m@[start + 5 * e + jj] == glyph_spec(e)[jj],
                forall|jj: int| 0 <= jj < j ==> m@[start + 5 * d + jj] == glyph_spec(d as int)[jj],
                forall|k: int|
                    0 <= k < m.len() && !(start <= k < start + 5 * d + j) ==> m@[k] == old(m)@[k],
            decreases 5 - j,
        {
            m.set(start + 5 * d + j, g[j]);
            j = j + 1;
        }
        d = d + 1;
    }
}

} // verus!
