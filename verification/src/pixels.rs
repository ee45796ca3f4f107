//! Pixel channel order: image decoders give RGBA, the renderer wants BGRA.

use vstd::prelude::*;

verus! {

/// The index whose byte lands at `i` when the red and blue bytes of every whole
/// four-byte pixel trade places; bytes of a trailing partial pixel stay.
pub open spec fn swapped_index(len: int, i: int) -> int {
    if i < len - len % 4 {
        if i % 4 == 0 {
            i + 2
        } else if i % 4 == 2 {
            i - 2
        } else {
            i
        }
    } else {
        i
    }
}

/// `p` with the first and third byte of every whole four-byte pixel exchanged.
pub open spec fn swap_red_blue_of(p: Seq<u8>) -> Seq<u8> {
    Seq::new(p.len(), |i: int| p[swapped_index(p.len() as int, i)])
}

/// Exchanges the first and third byte of every whole four-byte pixel, turning RGBA into
/// BGRA and back. Bytes after the last whole pixel are left as they are.
pub fn swap_red_blue(pixels: &mut Vec<u8>)
    ensures
        final(pixels)@ == swap_red_blue_of(old(pixels)@),
{
    let len = pixels.len();
    let whole = len - len % 4;
    let mut i: usize = 0;
    while i < whole
        invariant
            pixels@.len() == len,
            len == old(pixels)@.len(),
            whole == len - len % 4,
            i % 4 == 0,
            i <= whole,
            forall|j: int|
                0 <= j < i ==> #[trigger] pixels@[j] == old(pixels)@[swapped_index(len as int, j)],
            forall|j: int| i <= j < len ==> #[trigger] pixels@[j] == old(pixels)@[j],
        decreases whole - i,
    {
        let r = pixels[i];
        let b = pixels[i + 2];
        pixels.set(i, b);
        pixels.set(i + 2, r);
        i = i + 4;
    }
    assert(pixels@ =~= swap_red_blue_of(old(pixels)@));
}

/// Exchanging red and blue twice gives the pixels back.
pub proof fn lemma_swap_red_blue_involution(p: Seq<u8>)
    ensures
        swap_red_blue_of(swap_red_blue_of(p)) == p,
{
    assert(swap_red_blue_of(swap_red_blue_of(p)) =~= p);
}

/// The four bytes of pixel `p`.
pub open spec fn pixel_at(s: Seq<u8>, p: int) -> (u8, u8, u8, u8) {
    (s[4 * p], s[4 * p + 1], s[4 * p + 2], s[4 * p + 3])
}

/// `out` is the BGRA form of the RGBA pixels `inp`: as long, each whole pixel with its
/// first and third byte exchanged, the bytes of a trailing partial pixel as they were.
pub open spec fn is_bgra_of(out: Seq<u8>, inp: Seq<u8>) -> bool {
    &&& out.len() == inp.len()
    &&& forall|p: int|
        0 <= p < inp.len() / 4 ==> #[trigger] pixel_at(out, p) == (
            pixel_at(inp, p).2,
            pixel_at(inp, p).1,
            pixel_at(inp, p).0,
            pixel_at(inp, p).3,
        )
    &&& forall|i: int| 4 * (inp.len() / 4) <= i < inp.len() ==> #[trigger] out[i] == inp[i]
}

/// Exchanging red and blue turns every whole RGBA pixel into BGRA and keeps the rest.
pub proof fn lemma_swap_red_blue_is_bgra(inp: Seq<u8>)
    ensures
        is_bgra_of(swap_red_blue_of(inp), inp),
{
    let len = inp.len() as int;
    let out = swap_red_blue_of(inp);
    vstd::arithmetic::div_mod::lemma_fundamental_div_mod(len, 4);
    assert forall|p: int| 0 <= p < inp.len() / 4 implies #[trigger] pixel_at(out, p) == (
        pixel_at(inp, p).2,
        pixel_at(inp, p).1,
        pixel_at(inp, p).0,
        pixel_at(inp, p).3,
    ) by {
        let q = len / 4;
        assert(4 * p + 3 < len - len % 4) by (nonlinear_arith)
            requires
                0 <= p < q,
                len == 4 * q + len % 4,
        ;
        assert((4 * p) % 4 == 0 && (4 * p + 1) % 4 == 1 && (4 * p + 2) % 4 == 2 && (4 * p + 3)
            % 4 == 3) by (nonlinear_arith)
            requires
                0 <= p,
        ;
        assert(out[4 * p] == inp[4 * p + 2]);
        assert(out[4 * p + 1] == inp[4 * p + 1]);
        assert(out[4 * p + 2] == inp[4 * p]);
        assert(out[4 * p + 3] == inp[4 * p + 3]);
    }
    assert forall|i: int| 4 * (inp.len() / 4) <= i < inp.len() implies #[trigger] out[i]
        == inp[i] by {
        assert(swapped_index(len, i) == i);
    }
}

} // verus!
