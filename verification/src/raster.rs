//! The atlas slicer: crops 16x16-pixel cells out of a decoded RGBA image.
//!
//! An image is held as plain values — width, height and a row-major RGBA
//! byte buffer with 4 bytes per pixel — so every byte of every slice is
//! pinned by the contracts. Only the PNG decoding itself is delegated to the
//! `image` crate, behind one trusted wrapper.

use vstd::prelude::*;

use crate::errors::Error;
use crate::mapping::AtlasMapping;
use crate::pos::AtlasPos;

verus! {

/// A decoded image: `width * height` pixels, 4 bytes (RGBA) per pixel, rows
/// stored top to bottom.
#[derive(Debug, PartialEq, Eq)]
pub struct Rgba {
    pub width: u32,
    pub height: u32,
    pub pixels: Vec<u8>,
}

impl Rgba {
    /// The buffer holds exactly 4 bytes per pixel.
    pub open spec fn wf(&self) -> bool {
        self.pixels@.len() == 4 * (self.width as nat) * (self.height as nat)
    }
}

/// Whether the 16x16 cell at grid position `p` lies inside a `w` by `h`
/// image.
pub open spec fn cell_in_bounds(w: int, h: int, p: AtlasPos) -> bool {
    16 * (p.col() as int) + 16 <= w && 16 * (p.row() as int) + 16 <= h
}

/// The byte offset of byte `b` of pixel `(i, j)` inside a 16x16 RGBA cell.
pub open spec fn out_idx(j: int, i: int, b: int) -> int {
    64 * j + 4 * i + b
}

/// The byte offset, in a `w`-pixel-wide RGBA buffer, of byte `b` of the
/// source pixel behind cell pixel `(i, j)` of the cell at `(cx, cy)`.
pub open spec fn src_idx(w: int, cx: int, cy: int, j: int, i: int, b: int) -> int {
    4 * ((cy * 16 + j) * w + (cx * 16 + i)) + b
}

/// `out` is exactly the 16x16 RGBA cell at grid position `(cx, cy)` of a
/// `w`-pixel-wide image with pixel bytes `px`: every byte of `out` equals
/// the corresponding source byte.
pub open spec fn is_cell_of(out: Seq<u8>, w: int, px: Seq<u8>, cx: int, cy: int) -> bool {
    &&& out.len() == 1024
    &&& forall|j: int, i: int, b: int|
        0 <= j < 16 && 0 <= i < 16 && 0 <= b < 4 ==> out[#[trigger] out_idx(j, i, b)] == px[src_idx(
            w,
            cx,
            cy,
            j,
            i,
            b,
        )]
}

/// Crops the 16x16 cell at grid position `p` out of `img`.
pub fn crop(img: &Rgba, p: AtlasPos) -> (r: Rgba)
    requires
        img.wf(),
        cell_in_bounds(img.width as int, img.height as int, p),
    ensures
        r.width == 16,
        r.height == 16,
        r.wf(),
        is_cell_of(r.pixels@, img.width as int, img.pixels@, p.col() as int, p.row() as int),
{
    let w = img.width as usize;
    let cx = (p.code % 16) as usize;
    let cy = (p.code / 16) as usize;
    let ghost gw = img.width as int;
    let ghost gh = img.height as int;
    let ghost gpx = img.pixels@;
    let n = img.pixels.len();
    proof {
        assert((4 * gw) * gh == 4 * (gw * gh)) by (nonlinear_arith);
    }
    let mut out: Vec<u8> = Vec::new();
    let mut j: usize = 0;
    while j < 16
        invariant
            img.wf(),
            cell_in_bounds(gw, gh, p),
            gw == img.width as int,
            gh == img.height as int,
            gpx == img.pixels@,
            gpx.len() == 4 * (gw * gh),
            n == gpx.len(),
            w == img.width as usize,
            cx == p.col() as int,
            cy == p.row() as int,
            j <= 16,
            out@.len() == 64 * j,
            forall|j2: int, i2: int, b2: int|
                0 <= j2 < 16 && 0 <= i2 < 16 && 0 <= b2 < 4 && out_idx(j2, i2, b2) < out@.len()
                    ==> out@[#[trigger] out_idx(j2, i2, b2)] == gpx[src_idx(
                    gw,
                    cx as int,
                    cy as int,
                    j2,
                    i2,
                    b2,
                )],
        decreases 16 - j,
    {
        let mut i: usize = 0;
        while i < 16
            invariant
                img.wf(),
                cell_in_bounds(gw, gh, p),
                gw == img.width as int,
                gh == img.height as int,
                gpx == img.pixels@,
                gpx.len() == 4 * (gw * gh),
                n == gpx.len(),
                w == img.width as usize,
                cx == p.col() as int,
                cy == p.row() as int,
                j < 16,
                i <= 16,
                out@.len() == 64 * j + 4 * i,
                forall|j2: int, i2: int, b2: int|
                    0 <= j2 < 16 && 0 <= i2 < 16 && 0 <= b2 < 4 && out_idx(j2, i2, b2)
                        < out@.len() ==> out@[#[trigger] out_idx(j2, i2, b2)] == gpx[src_idx(
                        gw,
                        cx as int,
                        cy as int,
                        j2,
                        i2,
                        b2,
                    )],
            decreases 16 - i,
        {
            let y = cy * 16 + j;
            let x = cx * 16 + i;
            proof {
                assert(0 <= (x as int) < gw && 0 <= (y as int) < gh);
                assert(0 <= (y as int) * gw && (y as int) * gw + (x as int) < gw * gh)
                    by (nonlinear_arith)
                    requires
                        0 <= (x as int) < gw,
                        0 <= (y as int) < gh,
                ;
                assert(w as int == gw);
                assert(4 * (gw * gh) == n as int);
                assert((y as int) * (w as int) + (x as int) < gw * gh);
                assert(((y as int) * (w as int) + (x as int)) * 4 + 3 < n as int);
            }
            let idx = (y * w + x) * 4;
            let ghost len0 = out@.len() as int;
            out.push(img.pixels[idx]);
            out.push(img.pixels[idx + 1]);
            out.push(img.pixels[idx + 2]);
            out.push(img.pixels[idx + 3]);
            proof {
                assert forall|j2: int, i2: int, b2: int|
                    0 <= j2 < 16 && 0 <= i2 < 16 && 0 <= b2 < 4 && out_idx(j2, i2, b2)
                        < out@.len() implies out@[#[trigger] out_idx(j2, i2, b2)] == gpx[src_idx(
                    gw,
                    cx as int,
                    cy as int,
                    j2,
                    i2,
                    b2,
                )] by {
                    let k = out_idx(j2, i2, b2);
                    if k < len0 {
                        assert(out@[k] == gpx[src_idx(gw, cx as int, cy as int, j2, i2, b2)]);
                    } else {
                        assert(j2 == j && i2 == i);
                        assert(k == len0 + b2);
                        assert(out@[k] == gpx[idx as int + b2]);
                        assert(src_idx(gw, cx as int, cy as int, j2, i2, b2) == idx as int + b2);
                    }
                }
            }
            i = i + 1;
        }
        j = j + 1;
    }
    Rgba { width: 16, height: 16, pixels: out }
}

/// Every slice is accounted for: one 16x16 cell per entry of `entries`, in
/// entry order, each tagged with its entry's output base name, every cell in
/// bounds of the `w` by `h` source whose pixel bytes are `px`.
pub open spec fn slices_ok(
    v: Seq<(String, Rgba)>,
    w: int,
    h: int,
    px: Seq<u8>,
    entries: Seq<(AtlasPos, String)>,
) -> bool {
    &&& forall|t: int|
        0 <= t < entries.len() ==> cell_in_bounds(w, h, (#[trigger] entries[t]).0)
    &&& v.len() == entries.len()
    &&& forall|t: int|
        0 <= t < v.len() ==> {
            &&& (#[trigger] v[t]).0@ == entries[t].1@
            &&& v[t].1.width == 16
            &&& v[t].1.height == 16
            &&& v[t].1.wf()
            &&& is_cell_of(v[t].1.pixels@, w, px, entries[t].0.col() as int, entries[t].0.row() as int)
        }
}

/// `p` is the first coordinate of `entries`, in entry order, whose cell does
/// not fit a `w` by `h` image.
pub open spec fn first_out_of_bounds(
    p: AtlasPos,
    w: int,
    h: int,
    entries: Seq<(AtlasPos, String)>,
) -> bool {
    exists|t: int|
        0 <= t < entries.len() && (#[trigger] entries[t]).0 == p && !cell_in_bounds(w, h, p) && (
        forall|u: int| 0 <= u < t ==> cell_in_bounds(w, h, (#[trigger] entries[u]).0))
}

/// Slices every mapped cell out of `img`, in entry order: one 16x16 output
/// image per mapping entry, tagged with its output base name. Fails with
/// `OutOfBounds`, carrying the first offending coordinate in entry order,
/// when a mapped cell exceeds the image bounds.
pub fn slice_cells(img: &Rgba, mapping: &AtlasMapping) -> (r: Result<Vec<(String, Rgba)>, Error>)
    requires
        img.wf(),
    ensures
        match r {
            Ok(v) => slices_ok(
                v@,
                img.width as int,
                img.height as int,
                img.pixels@,
                mapping.entries@,
            ),
            Err(e) => {
                &&& e matches Error::OutOfBounds(p)
                &&& first_out_of_bounds(p, img.width as int, img.height as int, mapping.entries@)
            },
        },
{
    let mut v: Vec<(String, Rgba)> = Vec::new();
    let mut t: usize = 0;
    while t < mapping.entries.len()
        invariant
            img.wf(),
            t <= mapping.entries@.len(),
            v@.len() == t,
            forall|u: int|
                0 <= u < t ==> cell_in_bounds(
                    img.width as int,
                    img.height as int,
                    (#[trigger] mapping.entries@[u]).0,
                ),
            forall|u: int|
                0 <= u < t ==> {
                    &&& (#[trigger] v@[u]).0@ == mapping.entries@[u].1@
                    &&& v@[u].1.width == 16
                    &&& v@[u].1.height == 16
                    &&& v@[u].1.wf()
                    &&& is_cell_of(
                        v@[u].1.pixels@,
                        img.width as int,
                        img.pixels@,
                        mapping.entries@[u].0.col() as int,
                        mapping.entries@[u].0.row() as int,
                    )
                },
        decreases mapping.entries@.len() - t,
    {
        let p = mapping.entries[t].0;
        let cx = (p.code % 16) as u32;
        let cy = (p.code / 16) as u32;
        if cx * 16 + 16 > img.width || cy * 16 + 16 > img.height {
            proof {
                assert(!cell_in_bounds(img.width as int, img.height as int, p));
            }
            return Err(Error::OutOfBounds(p));
        }
        let name = mapping.entries[t].1.clone();
        let cell = crop(img, p);
        v.push((name, cell));
        t = t + 1;
    }
    Ok(v)
}

/// What decoding a byte string as a PNG yields: the image's width, height
/// and row-major RGBA bytes, or nothing when the bytes are not a valid PNG.
/// Decoding depends on the bytes alone.
pub uninterp spec fn png_decoded(bytes: Seq<u8>) -> Option<(u32, u32, Seq<u8>)>;

/// Relies on image::load_from_memory_with_format with ImageFormat::Png,
/// followed by DynamicImage::to_rgba8: the decoded RGBA buffer holds exactly
/// 4 bytes per pixel, rows top to bottom, and is a function of the input
/// bytes alone.
#[verifier::external_body]
fn decode_png(bytes: &[u8]) -> (r: Option<Rgba>)
    ensures
        match r {
            Some(img) => img.wf() && png_decoded(bytes@) == Some(
                (img.width, img.height, img.pixels@),
            ),
            None => png_decoded(bytes@) is None,
        },
{
    match image::load_from_memory_with_format(bytes, image::ImageFormat::Png) {
        Ok(d) => {
            let b = d.to_rgba8();
            let width = b.width();
            let height = b.height();
            Some(Rgba { width, height, pixels: b.into_raw() })
        },
        Err(_) => None,
    }
}

/// Decodes `bytes` as a PNG and slices every mapped cell, in entry order.
/// Fails with `Decode` when the bytes are not a valid PNG, and with
/// `OutOfBounds` (carrying the first offending coordinate in entry order)
/// when a mapped cell exceeds the decoded image's bounds.
pub fn slice_atlas(bytes: &[u8], mapping: &AtlasMapping) -> (r: Result<Vec<(String, Rgba)>, Error>)
    ensures
        match r {
            Ok(v) => png_decoded(bytes@) matches Some(d) && slices_ok(
                v@,
                d.0 as int,
                d.1 as int,
                d.2,
                mapping.entries@,
            ),
            Err(e) => match e {
                Error::Decode => png_decoded(bytes@) is None,
                Error::OutOfBounds(p) => png_decoded(bytes@) matches Some(d)
                    && first_out_of_bounds(p, d.0 as int, d.1 as int, mapping.entries@),
                _ => false,
            },
        },
{
    match decode_png(bytes) {
        None => Err(Error::Decode),
        Some(img) => slice_cells(&img, mapping),
    }
}

} // verus!
