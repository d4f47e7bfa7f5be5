//! Turning grayscale pixels into text, one character per pixel.
use vstd::prelude::*;
use vstd::string::{StrSliceExecFns, StringExecFns};

verus! {

/// Characters from darkest to brightest.
pub const ASCII_BRIGHTNESS: &'static str =
    "`^\",:;Il!i~+_-?][}{1)(|\\/tfjrxnuvczXYUJCLQ0OZmwqpdbkhao*#MW&8%B@$";

/// The position in `ASCII_BRIGHTNESS` that stands for brightness `bright`:
/// 0 to 255 scaled onto 0 to 64.
pub open spec fn ramp_index(bright: u8) -> int {
    (64 * bright as int) / 255
}

/// The character that stands for brightness `bright`.
pub open spec fn spec_scale(bright: u8) -> char {
    ASCII_BRIGHTNESS@[ramp_index(bright)]
}

/// The text for grayscale pixels laid out in rows of `width`, row by row,
/// rows separated by a newline.
pub open spec fn luma_text(width: nat, luma: Seq<u8>) -> Seq<char>
    decreases luma.len(),
{
    if luma.len() == 0 {
        seq![]
    } else {
        let k = luma.len() - 1;
        let sep = if k > 0 && k % (width as int) == 0 {
            seq!['\n']
        } else {
            seq![]
        };
        luma_text(width, luma.drop_last()) + sep + seq![spec_scale(luma.last())]
    }
}

proof fn lemma_ramp_len()
    ensures
        ASCII_BRIGHTNESS@.len() == 65,
{
    reveal_strlit("`^\",:;Il!i~+_-?][}{1)(|\\/tfjrxnuvczXYUJCLQ0OZmwqpdbkhao*#MW&8%B@$");
}

/// Scales a brightness from 0 to 255 onto a character of `ASCII_BRIGHTNESS`.
pub fn scale(bright: u8) -> (r: char)
    ensures
        r == spec_scale(bright),
        0 <= ramp_index(bright) < ASCII_BRIGHTNESS@.len(),
{
    proof {
        lemma_ramp_len();
    }
    let index = (64 * bright as usize) / 255;
    ASCII_BRIGHTNESS.get_char(index)
}

/// The text for grayscale pixels laid out in rows of `width`.
pub fn luma_to_ascii(width: usize, luma: &[u8]) -> (r: String)
    requires
        width > 0,
    ensures
        r@ == luma_text(width as nat, luma@),
{
    proof {
        lemma_ramp_len();
    }
    let mut out = String::new();
    let mut k: usize = 0;
    while k < luma.len()
        invariant
            width > 0,
            k <= luma@.len(),
            ASCII_BRIGHTNESS@.len() == 65,
            out@ == luma_text(width as nat, luma@.take(k as int)),
        decreases luma@.len() - k,
    {
        if k > 0 && k % width == 0 {
            out.append("\n");
        }
        let bright = luma[k];
        let index = (64 * bright as usize) / 255;
        out.append(ASCII_BRIGHTNESS.substring_char(index, index + 1));
        proof {
            let t = luma@.take(k + 1);
            assert(t.drop_last() =~= luma@.take(k as int));
            assert(t.last() == bright);
            reveal_strlit("\n");
            let piece = ASCII_BRIGHTNESS@.subrange(index as int, index + 1);
            assert(piece =~= seq![spec_scale(bright)]);
            assert(out@ =~= luma_text(width as nat, t));
        }
        k += 1;
    }
    assert(luma@.take(k as int) =~= luma@);
    out
}

} // verus!
