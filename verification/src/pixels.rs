//! Byte-level pixel buffer transformations shared by the frame and source
//! image tooling: adding and dropping an alpha channel, and deciding whether
//! an RGBA buffer makes real use of its alpha. The float pixel math around
//! them (tinting, gamut mapping) stays outside the library.

use vstd::prelude::*;

verus! {

/// Pixel `p` of the RGBA buffer `r` carries the colour of pixel `p` of the
/// RGB buffer `b`, fully opaque.
pub open spec fn rgba_of_rgb_at(r: Seq<u8>, b: Seq<u8>, p: int) -> bool {
    r[4 * p] == b[3 * p] && r[4 * p + 1] == b[3 * p + 1] && r[4 * p + 2] == b[3 * p + 2] && r[4 * p
        + 3] == 255
}

/// Turn packed RGB triples into RGBA with every pixel fully opaque.
pub fn expand_rgb_to_rgba(bytes: &Vec<u8>) -> (r: Vec<u8>)
    requires
        bytes@.len() % 3 == 0,
        bytes@.len() / 3 * 4 <= usize::MAX,
    ensures
        r@.len() == bytes@.len() / 3 * 4,
        forall|p: int| 0 <= p < bytes@.len() / 3 ==> #[trigger] rgba_of_rgb_at(r@, bytes@, p),
{
    let n = bytes.len();
    let pixels = n / 3;
    let mut out: Vec<u8> = Vec::new();
    let mut p: usize = 0;
    while p < pixels
        invariant
            n == bytes@.len(),
            n % 3 == 0,
            pixels == n / 3,
            pixels * 4 <= usize::MAX,
            p <= pixels,
            out@.len() == 4 * p,
            forall|q: int| 0 <= q < p ==> #[trigger] rgba_of_rgb_at(out@, bytes@, q),
        decreases pixels - p,
    {
        let ghost pre = out@;
        out.push(bytes[3 * p]);
        out.push(bytes[3 * p + 1]);
        out.push(bytes[3 * p + 2]);
        out.push(255);
        proof {
            assert forall|q: int| 0 <= q < p + 1 implies #[trigger] rgba_of_rgb_at(
                out@,
                bytes@,
                q,
            ) by {
                if q < p {
                    assert(rgba_of_rgb_at(pre, bytes@, q));
                    assert(out@[4 * q] == pre[4 * q]);
                    assert(out@[4 * q + 1] == pre[4 * q + 1]);
                    assert(out@[4 * q + 2] == pre[4 * q + 2]);
                    assert(out@[4 * q + 3] == pre[4 * q + 3]);
                } else {
                    assert(out@[4 * q] == bytes@[3 * q]);
                    assert(out@[4 * q + 1] == bytes@[3 * q + 1]);
                    assert(out@[4 * q + 2] == bytes@[3 * q + 2]);
                    assert(out@[4 * q + 3] == 255);
                }
            }
        }
        p = p + 1;
    }
    out
}

/// Pixel `p` of the RGB buffer `r` carries the colour of pixel `p` of the
/// RGBA buffer `b`.
pub open spec fn rgb_of_rgba_at(r: Seq<u8>, b: Seq<u8>, p: int) -> bool {
    r[3 * p] == b[4 * p] && r[3 * p + 1] == b[4 * p + 1] && r[3 * p + 2] == b[4 * p + 2]
}

/// Drop the alpha byte of every RGBA pixel, leaving packed RGB.
pub fn drop_alpha(bytes: &Vec<u8>) -> (r: Vec<u8>)
    requires
        bytes@.len() % 4 == 0,
    ensures
        r@.len() == bytes@.len() / 4 * 3,
        forall|p: int| 0 <= p < bytes@.len() / 4 ==> #[trigger] rgb_of_rgba_at(r@, bytes@, p),
{
    let n = bytes.len();
    let pixels = n / 4;
    let mut out: Vec<u8> = Vec::new();
    let mut p: usize = 0;
    while p < pixels
        invariant
            n == bytes@.len(),
            n % 4 == 0,
            pixels == n / 4,
            p <= pixels,
            out@.len() == 3 * p,
            forall|q: int| 0 <= q < p ==> #[trigger] rgb_of_rgba_at(out@, bytes@, q),
        decreases pixels - p,
    {
        let ghost pre = out@;
        out.push(bytes[4 * p]);
        out.push(bytes[4 * p + 1]);
        out.push(bytes[4 * p + 2]);
        proof {
            assert forall|q: int| 0 <= q < p + 1 implies #[trigger] rgb_of_rgba_at(
                out@,
                bytes@,
                q,
            ) by {
                if q < p {
                    assert(rgb_of_rgba_at(pre, bytes@, q));
                    assert(out@[3 * q] == pre[3 * q]);
                    assert(out@[3 * q + 1] == pre[3 * q + 1]);
                    assert(out@[3 * q + 2] == pre[3 * q + 2]);
                } else {
                    assert(out@[3 * q] == bytes@[4 * q]);
                    assert(out@[3 * q + 1] == bytes@[4 * q + 1]);
                    assert(out@[3 * q + 2] == bytes@[4 * q + 2]);
                }
            }
        }
        p = p + 1;
    }
    out
}

/// Pixel `p` of the RGBA buffer is pure white.
pub open spec fn pixel_white(bytes: Seq<u8>, p: int) -> bool {
    bytes[4 * p] == 255 && bytes[4 * p + 1] == 255 && bytes[4 * p + 2] == 255
}

/// Pixel `p` of the RGBA buffer is fully opaque.
pub open spec fn pixel_opaque(bytes: Seq<u8>, p: int) -> bool {
    bytes[4 * p + 3] == 255
}

/// Whether an RGBA buffer makes real use of its alpha channel: some pixel is
/// translucent and not pure white. (A translucent pure-white pixel survives
/// the flattening a lossy re-encode performs, so it does not count.)
pub fn uses_alpha(bytes: &Vec<u8>) -> (r: bool)
    requires
        bytes@.len() % 4 == 0,
    ensures
        r <==> exists|p: int|
            0 <= p < bytes@.len() / 4 && !pixel_white(bytes@, p) && !pixel_opaque(bytes@, p),
{
    let n = bytes.len();
    let pixels = n / 4;
    let mut p: usize = 0;
    while p < pixels
        invariant
            n == bytes@.len(),
            n % 4 == 0,
            pixels == n / 4,
            p <= pixels,
            forall|q: int| 0 <= q < p ==> pixel_white(bytes@, q) || pixel_opaque(bytes@, q),
        decreases pixels - p,
    {
        let is_white = bytes[4 * p] == 255 && bytes[4 * p + 1] == 255 && bytes[4 * p + 2] == 255;
        let is_opaque = bytes[4 * p + 3] == 255;
        if !is_white && !is_opaque {
            proof {
                assert(!pixel_white(bytes@, p as int));
                assert(!pixel_opaque(bytes@, p as int));
            }
            return true;
        }
        p = p + 1;
    }
    false
}

} // verus!
