//! Compositing of normalized channels into RGBA pixel buffers.
//!
//! Each channel hands one `Option<u8>` per pixel: `Some` is a normalized
//! 8-bit intensity, `None` marks an invalid sample (nodata or unsampled).
//! A pixel is opaque as soon as any channel is valid; an invalid channel of
//! an otherwise opaque pixel contributes 0 to its color component.

use vstd::prelude::*;

verus! {

/// The color contribution of one channel: its value if valid, else 0.
pub open spec fn channel_byte(c: Option<u8>) -> u8 {
    match c {
        Some(v) => v,
        None => 0u8,
    }
}

/// A pixel is opaque exactly when at least one channel is valid.
pub open spec fn pixel_opaque(r: Option<u8>, g: Option<u8>, b: Option<u8>) -> bool {
    r is Some || g is Some || b is Some
}

/// The flat RGBA buffer composited from three channels of equal length.
pub open spec fn rgb_rgba(r: Seq<Option<u8>>, g: Seq<Option<u8>>, b: Seq<Option<u8>>) -> Seq<u8> {
    Seq::new(
        4 * r.len(),
        |j: int|
            {
                let i = j / 4;
                if pixel_opaque(r[i], g[i], b[i]) {
                    if j % 4 == 0 {
                        channel_byte(r[i])
                    } else if j % 4 == 1 {
                        channel_byte(g[i])
                    } else if j % 4 == 2 {
                        channel_byte(b[i])
                    } else {
                        255u8
                    }
                } else {
                    0u8
                }
            },
    )
}

/// A single channel replicated into R, G and B for a grayscale appearance.
pub open spec fn gray_rgba(ch: Seq<Option<u8>>) -> Seq<u8> {
    rgb_rgba(ch, ch, ch)
}

/// A fully transparent buffer of `len` zero bytes.
pub open spec fn transparent_rgba(len: nat) -> Seq<u8> {
    Seq::new(len, |j: int| 0u8)
}

/// Composite three equally long channels into one RGBA buffer.
pub fn compose_rgb(r: &Vec<Option<u8>>, g: &Vec<Option<u8>>, b: &Vec<Option<u8>>) -> (out: Vec<
    u8,
>)
    requires
        r.len() == g.len(),
        r.len() == b.len(),
        r.len() <= usize::MAX / 4,
    ensures
        out@ == rgb_rgba(r@, g@, b@),
{
    let n = r.len();
    let mut out: Vec<u8> = Vec::new();
    let mut i: usize = 0;
    while i < n
        invariant
            i <= n,
            n == r.len() == g.len() == b.len(),
            n <= usize::MAX / 4,
            out@.len() == 4 * i,
            forall|j: int| 0 <= j < 4 * i ==> out@[j] == rgb_rgba(r@, g@, b@)[j],
        decreases n - i,
    {
        let rv = r[i];
        let gv = g[i];
        let bv = b[i];
        if rv.is_some() || gv.is_some() || bv.is_some() {
            out.push(match rv {
                Some(v) => v,
                None => 0u8,
            });
            out.push(match gv {
                Some(v) => v,
                None => 0u8,
            });
            out.push(match bv {
                Some(v) => v,
                None => 0u8,
            });
            out.push(255u8);
        } else {
            out.push(0u8);
            out.push(0u8);
            out.push(0u8);
            out.push(0u8);
        }
        assert forall|j: int| 4 * i <= j < 4 * (i + 1) implies out@[j] == rgb_rgba(
            r@,
            g@,
            b@,
        )[j] by {
            assert(j / 4 == i as int);
        }
        i = i + 1;
    }
    assert(out@ =~= rgb_rgba(r@, g@, b@));
    out
}

/// Composite one channel into a grayscale RGBA buffer.
pub fn compose_gray(ch: &Vec<Option<u8>>) -> (out: Vec<u8>)
    requires
        ch.len() <= usize::MAX / 4,
    ensures
        out@ == gray_rgba(ch@),
{
    compose_rgb(ch, ch, ch)
}

/// A fully transparent RGBA buffer of `len` bytes.
pub fn transparent_buffer(len: usize) -> (out: Vec<u8>)
    ensures
        out@ == transparent_rgba(len as nat),
{
    let mut out: Vec<u8> = Vec::new();
    let mut i: usize = 0;
    while i < len
        invariant
            i <= len,
            out@.len() == i,
            forall|j: int| 0 <= j < i ==> out@[j] == 0u8,
        decreases len - i,
    {
        out.push(0u8);
        i = i + 1;
    }
    assert(out@ =~= transparent_rgba(len as nat));
    out
}

/// A pixel whose only valid channel is green renders opaque, not
/// transparent: its RGBA bytes are (0, g, 0, 255).
pub proof fn lemma_green_only_pixel(
    r: Seq<Option<u8>>,
    g: Seq<Option<u8>>,
    b: Seq<Option<u8>>,
    i: int,
)
    requires
        r.len() == g.len(),
        r.len() == b.len(),
        0 <= i < r.len(),
        r[i] is None,
        g[i] is Some,
        b[i] is None,
    ensures
        rgb_rgba(r, g, b)[4 * i] == 0u8,
        rgb_rgba(r, g, b)[4 * i + 1] == g[i].unwrap(),
        rgb_rgba(r, g, b)[4 * i + 2] == 0u8,
        rgb_rgba(r, g, b)[4 * i + 3] == 255u8,
{
    assert((4 * i) / 4 == i && (4 * i) % 4 == 0);
    assert((4 * i + 1) / 4 == i && (4 * i + 1) % 4 == 1);
    assert((4 * i + 2) / 4 == i && (4 * i + 2) % 4 == 2);
    assert((4 * i + 3) / 4 == i && (4 * i + 3) % 4 == 3);
}

/// Channels with no valid sample anywhere composite to the fully
/// transparent buffer.
pub proof fn lemma_all_invalid_is_transparent(
    r: Seq<Option<u8>>,
    g: Seq<Option<u8>>,
    b: Seq<Option<u8>>,
)
    requires
        r.len() == g.len(),
        r.len() == b.len(),
        forall|i: int| 0 <= i < r.len() ==> r[i] is None && g[i] is None && b[i] is None,
    ensures
        rgb_rgba(r, g, b) == transparent_rgba(4 * r.len()),
{
    assert forall|j: int| 0 <= j < 4 * r.len() implies rgb_rgba(r, g, b)[j] == 0u8 by {
        let i = j / 4;
        assert(0 <= i < r.len());
    }
    assert(rgb_rgba(r, g, b) =~= transparent_rgba(4 * r.len()));
}

} // verus!
