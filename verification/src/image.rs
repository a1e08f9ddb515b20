//! RGBA pixel buffers: copying one image into another, fallback textures,
//! cropping, and packing sprites into an atlas.
use vstd::prelude::*;

verus! {

/// The four bytes at `di` of `d` equal the four bytes at `si` of `s`.
pub open spec fn same_pixel(d: Seq<u8>, s: Seq<u8>, di: int, si: int) -> bool {
    d[di] == s[si] && d[di + 1] == s[si + 1] && d[di + 2] == s[si + 2] && d[di + 3] == s[si + 3]
}

/// Byte offset of pixel `(px, py)` in an image `stride` pixels wide.
pub open spec fn pixel_at(stride: int, px: int, py: int) -> int {
    (py * stride + px) * 4
}

/// The arithmetic of a copy stays within `u32`.
pub open spec fn blit_fits(dst_stride: int, src_stride: int, dx: int, dy: int, w: int, h: int) -> bool {
    w == 0 || h == 0 || {
        &&& pixel_at(src_stride, w - 1, h - 1) <= u32::MAX
        &&& dy + h - 1 <= u32::MAX
        &&& pixel_at(dst_stride, dx + w - 1, dy + h - 1) <= u32::MAX
    }
}

/// Pixel `(px, py)` of the source is copied: it and its target lie inside the buffers.
pub open spec fn copied(dst_len: int, src_len: int, dst_stride: int, src_stride: int, dx: int, dy: int, px: int, py: int) -> bool {
    pixel_at(src_stride, px, py) + 4 <= src_len && pixel_at(dst_stride, dx + px, dy + py) + 4 <= dst_len
}

/// Pixel `(px, py)` of the block comes before row `py0`, column `px0` in row order.
pub open spec fn before(w: int, px: int, py: int, px0: int, py0: int) -> bool {
    0 <= px < w && 0 <= py && (py < py0 || (py == py0 && px < px0))
}

/// Byte `j` of the target is written by a copied pixel that comes before
/// row `py0`, column `px0`.
pub open spec fn written_before(dst_len: int, src_len: int, dst_stride: int, src_stride: int, dx: int, dy: int, w: int, px0: int, py0: int, j: int) -> bool {
    exists|px: int, py: int| #[trigger] before(w, px, py, px0, py0)
        && copied(dst_len, src_len, dst_stride, src_stride, dx, dy, px, py)
        && pixel_at(dst_stride, dx + px, dy + py) <= j < pixel_at(dst_stride, dx + px, dy + py) + 4
}

/// Byte `j` of the target is written by some copied pixel of the `w` by `h` block.
pub open spec fn written(dst_len: int, src_len: int, dst_stride: int, src_stride: int, dx: int, dy: int, w: int, h: int, j: int) -> bool {
    written_before(dst_len, src_len, dst_stride, src_stride, dx, dy, w, 0, h, j)
}

/// Pixel `(rx, ry)` of the block comes after pixel `(qx, qy)` in row order.
pub open spec fn after(rx: int, ry: int, qx: int, qy: int) -> bool {
    ry > qy || (ry == qy && rx > qx)
}

/// No copied pixel that comes after `(qx, qy)` and before row `py0`,
/// column `px0` lands on the same target pixel.
pub open spec fn unclobbered(dst_len: int, src_len: int, dst_stride: int, src_stride: int, dx: int, dy: int, w: int, px0: int, py0: int, qx: int, qy: int) -> bool {
    forall|rx: int, ry: int| #[trigger] before(w, rx, ry, px0, py0) && after(rx, ry, qx, qy)
        && copied(dst_len, src_len, dst_stride, src_stride, dx, dy, rx, ry)
        ==> pixel_at(dst_stride, dx + rx, dy + ry) != pixel_at(dst_stride, dx + qx, dy + qy)
}

proof fn lemma_mul_mono(a: int, b: int, c: int)
    requires
        0 <= a <= b,
        0 <= c,
    ensures
        a * c <= b * c,
{
    assert(a * c <= b * c) by (nonlinear_arith) requires 0 <= a <= b, 0 <= c;
}

/// Lemma: while the block's rows stay within the target's rows, distinct
/// pixels of the block land on distinct pixels of the target.
proof fn lemma_targets_distinct(ds: int, dx: int, dy: int, w: int, px1: int, py1: int, px2: int, py2: int)
    requires
        0 <= dx,
        0 <= dy,
        dx + w <= ds,
        0 <= px1 < w,
        0 <= px2 < w,
        0 <= py1,
        0 <= py2,
        (dy + py1) * ds + dx + px1 == (dy + py2) * ds + dx + px2,
    ensures
        px1 == px2 && py1 == py2,
{
    let d = py1 - py2;
    assert(d * ds == px2 - px1) by (nonlinear_arith)
        requires (dy + py1) * ds + dx + px1 == (dy + py2) * ds + dx + px2, d == py1 - py2;
    if d > 0 {
        assert(d * ds >= ds) by (nonlinear_arith) requires d > 0, ds >= 0;
    } else if d < 0 {
        assert(d * ds <= -ds) by (nonlinear_arith) requires d < 0, ds >= 0;
    }
}

/// Lemma: the byte offsets of the pixels of a fitting block are within `u32`.
proof fn lemma_offsets_fit(ds: int, ss: int, dx: int, dy: int, w: int, h: int, px: int, py: int)
    requires
        blit_fits(ds, ss, dx, dy, w, h),
        0 <= ds,
        0 <= ss,
        0 <= dx,
        0 <= dy,
        0 <= px < w,
        0 <= py < h,
    ensures
        0 <= pixel_at(ss, px, py) <= u32::MAX,
        0 <= pixel_at(ds, dx + px, dy + py) <= u32::MAX,
        py * ss <= u32::MAX,
        (dy + py) * ds <= u32::MAX,
{
    lemma_mul_mono(py, h - 1, ss);
    lemma_mul_mono(dy + py, dy + h - 1, ds);
    assert(0 <= py * ss) by (nonlinear_arith) requires 0 <= py, 0 <= ss;
    assert(0 <= (dy + py) * ds) by (nonlinear_arith) requires 0 <= dy + py, 0 <= ds;
}

/// Copies a `w` by `h` block of pixels from the top-left of `src` (rows
/// `src_stride` pixels apart) to position `(dx, dy)` of `dst` (rows
/// `dst_stride` pixels apart), skipping pixels that fall outside either buffer.
/// Bytes no copied pixel targets are left alone; each copied pixel that no
/// later copied pixel lands on holds its source pixel, which is every copied
/// pixel when the block's rows do not run past the end of the target's rows.
pub fn blit_image(dst: &mut [u8], dst_stride: u32, src: &[u8], src_stride: u32, dx: u32, dy: u32, w: u32, h: u32)
    requires
        blit_fits(dst_stride as int, src_stride as int, dx as int, dy as int, w as int, h as int),
    ensures
        final(dst)@.len() == old(dst)@.len(),
        forall|j: int| 0 <= j < old(dst)@.len() && !written(old(dst)@.len() as int, src@.len() as int, dst_stride as int, src_stride as int, dx as int, dy as int, w as int, h as int, j)
            ==> final(dst)@[j] == old(dst)@[j],
        dx + w <= dst_stride ==> forall|px: int, py: int| 0 <= px < w && 0 <= py < h
            && #[trigger] copied(old(dst)@.len() as int, src@.len() as int, dst_stride as int, src_stride as int, dx as int, dy as int, px, py)
            ==> same_pixel(final(dst)@, src@, pixel_at(dst_stride as int, dx + px, dy + py), pixel_at(src_stride as int, px, py)),
        forall|px: int, py: int| 0 <= px < w && 0 <= py < h
            && #[trigger] copied(old(dst)@.len() as int, src@.len() as int, dst_stride as int, src_stride as int, dx as int, dy as int, px, py)
            && unclobbered(old(dst)@.len() as int, src@.len() as int, dst_stride as int, src_stride as int, dx as int, dy as int, w as int, 0, h as int, px, py)
            ==> same_pixel(final(dst)@, src@, pixel_at(dst_stride as int, dx + px, dy + py), pixel_at(src_stride as int, px, py)),
{
    let ghost dl = dst@.len() as int;
    let ghost sl = src@.len() as int;
    let ghost ds = dst_stride as int;
    let ghost ss = src_stride as int;
    let ghost orig = dst@;
    let mut py: u32 = 0;
    while py < h
        invariant
            py <= h,
            dst@.len() == dl,
            orig.len() == dl,
            sl == src@.len(),
            ds == dst_stride,
            ss == src_stride,
            blit_fits(ds, ss, dx as int, dy as int, w as int, h as int),
            forall|j: int| 0 <= j < dl && !written_before(dl, sl, ds, ss, dx as int, dy as int, w as int, 0, py as int, j)
                ==> dst@[j] == orig[j],
            dx + w <= dst_stride ==> forall|qx: int, qy: int| #[trigger] before(w as int, qx, qy, 0, py as int)
                && copied(dl, sl, ds, ss, dx as int, dy as int, qx, qy)
                ==> same_pixel(dst@, src@, pixel_at(ds, dx + qx, dy + qy), pixel_at(ss, qx, qy)),
            forall|qx: int, qy: int| #[trigger] before(w as int, qx, qy, 0, py as int)
                && copied(dl, sl, ds, ss, dx as int, dy as int, qx, qy)
                && unclobbered(dl, sl, ds, ss, dx as int, dy as int, w as int, 0, py as int, qx, qy)
                ==> same_pixel(dst@, src@, pixel_at(ds, dx + qx, dy + qy), pixel_at(ss, qx, qy)),
        decreases h - py,
    {
        let mut px: u32 = 0;
        while px < w
            invariant
                px <= w,
                py < h,
                dst@.len() == dl,
                orig.len() == dl,
                sl == src@.len(),
                ds == dst_stride,
                ss == src_stride,
                blit_fits(ds, ss, dx as int, dy as int, w as int, h as int),
                forall|j: int| 0 <= j < dl && !written_before(dl, sl, ds, ss, dx as int, dy as int, w as int, px as int, py as int, j)
                    ==> dst@[j] == orig[j],
                dx + w <= dst_stride ==> forall|qx: int, qy: int| #[trigger] before(w as int, qx, qy, px as int, py as int)
                    && copied(dl, sl, ds, ss, dx as int, dy as int, qx, qy)
                    ==> same_pixel(dst@, src@, pixel_at(ds, dx + qx, dy + qy), pixel_at(ss, qx, qy)),
                forall|qx: int, qy: int| #[trigger] before(w as int, qx, qy, px as int, py as int)
                    && copied(dl, sl, ds, ss, dx as int, dy as int, qx, qy)
                    && unclobbered(dl, sl, ds, ss, dx as int, dy as int, w as int, px as int, py as int, qx, qy)
                    ==> same_pixel(dst@, src@, pixel_at(ds, dx + qx, dy + qy), pixel_at(ss, qx, qy)),
            decreases w - px,
        {
            proof {
                lemma_offsets_fit(ds, ss, dx as int, dy as int, w as int, h as int, px as int, py as int);
            }
            let si: u64 = ((py as u64) * (src_stride as u64) + px as u64) * 4;
            let di: u64 = ((dy as u64 + py as u64) * (dst_stride as u64) + dx as u64 + px as u64) * 4;
            assert(si as int == pixel_at(ss, px as int, py as int));
            assert(di as int == pixel_at(ds, dx + px, dy + py));
            let ghost prev = dst@;
            if si + 4 <= src.len() as u64 && di + 4 <= dst.len() as u64 {
                let s0 = si as usize;
                let d0 = di as usize;
                dst[d0] = src[s0];
                dst[d0 + 1] = src[s0 + 1];
                dst[d0 + 2] = src[s0 + 2];
                dst[d0 + 3] = src[s0 + 3];
                proof {
                    assert(copied(dl, sl, ds, ss, dx as int, dy as int, px as int, py as int));
                    assert forall|j: int| 0 <= j < dl && !written_before(dl, sl, ds, ss, dx as int, dy as int, w as int, px + 1, py as int, j)
                        implies dst@[j] == orig[j] by {
                        if d0 <= j < d0 + 4 {
                            assert(before(w as int, px as int, py as int, px + 1, py as int));
                        } else {
                            assert(dst@[j] == prev[j]);
                            if written_before(dl, sl, ds, ss, dx as int, dy as int, w as int, px as int, py as int, j) {
                                let (qx, qy) = choose|qx: int, qy: int| #[trigger] before(w as int, qx, qy, px as int, py as int)
                                    && copied(dl, sl, ds, ss, dx as int, dy as int, qx, qy)
                                    && pixel_at(ds, dx + qx, dy + qy) <= j < pixel_at(ds, dx + qx, dy + qy) + 4;
                                assert(before(w as int, qx, qy, px + 1, py as int));
                            }
                        }
                    }
                    if dx + w <= dst_stride {
                        assert forall|qx: int, qy: int| #[trigger] before(w as int, qx, qy, px + 1, py as int)
                            && copied(dl, sl, ds, ss, dx as int, dy as int, qx, qy)
                            implies same_pixel(dst@, src@, pixel_at(ds, dx + qx, dy + qy), pixel_at(ss, qx, qy)) by {
                            if qx == px && qy == py {
                            } else {
                                assert(before(w as int, qx, qy, px as int, py as int));
                                let t = pixel_at(ds, dx + qx, dy + qy);
                                assert(0 <= t) by (nonlinear_arith) requires t == ((qy + dy) * ds + dx + qx) * 4, 0 <= qy, 0 <= dy, 0 <= ds, 0 <= dx, 0 <= qx;
                                let p1 = (dy + qy) * ds + dx + qx;
                                let p2 = (dy + py) * ds + dx + px;
                                if p1 == p2 {
                                    lemma_targets_distinct(ds, dx as int, dy as int, w as int, qx, qy, px as int, py as int);
                                }
                                assert(t + 4 <= d0 || d0 + 4 <= t);
                                assert(dst@[t] == prev[t] && dst@[t + 1] == prev[t + 1] && dst@[t + 2] == prev[t + 2] && dst@[t + 3] == prev[t + 3]);
                            }
                        }
                    }
                    assert forall|qx: int, qy: int| #[trigger] before(w as int, qx, qy, px + 1, py as int)
                        && copied(dl, sl, ds, ss, dx as int, dy as int, qx, qy)
                        && unclobbered(dl, sl, ds, ss, dx as int, dy as int, w as int, px + 1, py as int, qx, qy)
                        implies same_pixel(dst@, src@, pixel_at(ds, dx + qx, dy + qy), pixel_at(ss, qx, qy)) by {
                        if qx == px && qy == py {
                        } else {
                            assert(before(w as int, qx, qy, px as int, py as int));
                            assert(before(w as int, px as int, py as int, px + 1, py as int));
                            assert(after(px as int, py as int, qx, qy));
                            let t = pixel_at(ds, dx + qx, dy + qy);
                            assert(t != d0);
                            assert(0 <= t) by (nonlinear_arith) requires t == ((qy + dy) * ds + dx + qx) * 4, 0 <= qy, 0 <= dy, 0 <= ds, 0 <= dx, 0 <= qx;
                            assert(t + 4 <= d0 || d0 + 4 <= t) by (nonlinear_arith)
                                requires t == ((qy + dy) * ds + dx + qx) * 4, d0 == ((py + dy) * ds + dx + px) * 4, t != d0;
                            assert(dst@[t] == prev[t] && dst@[t + 1] == prev[t + 1] && dst@[t + 2] == prev[t + 2] && dst@[t + 3] == prev[t + 3]);
                            assert forall|rx: int, ry: int| #[trigger] before(w as int, rx, ry, px as int, py as int) && after(rx, ry, qx, qy)
                                && copied(dl, sl, ds, ss, dx as int, dy as int, rx, ry)
                                implies pixel_at(ds, dx + rx, dy + ry) != pixel_at(ds, dx + qx, dy + qy) by {
                                assert(before(w as int, rx, ry, px + 1, py as int));
                            }
                        }
                    }
                }
            } else {
                proof {
                    assert(!copied(dl, sl, ds, ss, dx as int, dy as int, px as int, py as int));
                    assert forall|j: int| 0 <= j < dl && !written_before(dl, sl, ds, ss, dx as int, dy as int, w as int, px + 1, py as int, j)
                        implies dst@[j] == orig[j] by {
                        if written_before(dl, sl, ds, ss, dx as int, dy as int, w as int, px as int, py as int, j) {
                            let (qx, qy) = choose|qx: int, qy: int| #[trigger] before(w as int, qx, qy, px as int, py as int)
                                && copied(dl, sl, ds, ss, dx as int, dy as int, qx, qy)
                                && pixel_at(ds, dx + qx, dy + qy) <= j < pixel_at(ds, dx + qx, dy + qy) + 4;
                            assert(before(w as int, qx, qy, px + 1, py as int));
                        }
                    }
                    if dx + w <= dst_stride {
                        assert forall|qx: int, qy: int| #[trigger] before(w as int, qx, qy, px + 1, py as int)
                            && copied(dl, sl, ds, ss, dx as int, dy as int, qx, qy)
                            implies same_pixel(dst@, src@, pixel_at(ds, dx + qx, dy + qy), pixel_at(ss, qx, qy)) by {
                            assert(before(w as int, qx, qy, px as int, py as int));
                        }
                    }
                    assert forall|qx: int, qy: int| #[trigger] before(w as int, qx, qy, px + 1, py as int)
                        && copied(dl, sl, ds, ss, dx as int, dy as int, qx, qy)
                        && unclobbered(dl, sl, ds, ss, dx as int, dy as int, w as int, px + 1, py as int, qx, qy)
                        implies same_pixel(dst@, src@, pixel_at(ds, dx + qx, dy + qy), pixel_at(ss, qx, qy)) by {
                        assert(before(w as int, qx, qy, px as int, py as int));
                        assert forall|rx: int, ry: int| #[trigger] before(w as int, rx, ry, px as int, py as int) && after(rx, ry, qx, qy)
                            && copied(dl, sl, ds, ss, dx as int, dy as int, rx, ry)
                            implies pixel_at(ds, dx + rx, dy + ry) != pixel_at(ds, dx + qx, dy + qy) by {
                            assert(before(w as int, rx, ry, px + 1, py as int));
                        }
                    }
                }
            }
            px = px + 1;
        }
        proof {
            assert forall|j: int| 0 <= j < dl && !written_before(dl, sl, ds, ss, dx as int, dy as int, w as int, 0, py + 1, j)
                implies dst@[j] == orig[j] by {
                if written_before(dl, sl, ds, ss, dx as int, dy as int, w as int, w as int, py as int, j) {
                    let (qx, qy) = choose|qx: int, qy: int| #[trigger] before(w as int, qx, qy, w as int, py as int)
                        && copied(dl, sl, ds, ss, dx as int, dy as int, qx, qy)
                        && pixel_at(ds, dx + qx, dy + qy) <= j < pixel_at(ds, dx + qx, dy + qy) + 4;
                    assert(before(w as int, qx, qy, 0, py + 1));
                }
            }
            if dx + w <= dst_stride {
                assert forall|qx: int, qy: int| #[trigger] before(w as int, qx, qy, 0, py + 1)
                    && copied(dl, sl, ds, ss, dx as int, dy as int, qx, qy)
                    implies same_pixel(dst@, src@, pixel_at(ds, dx + qx, dy + qy), pixel_at(ss, qx, qy)) by {
                    assert(before(w as int, qx, qy, w as int, py as int));
                }
            }
            assert forall|qx: int, qy: int| #[trigger] before(w as int, qx, qy, 0, py + 1)
                && copied(dl, sl, ds, ss, dx as int, dy as int, qx, qy)
                && unclobbered(dl, sl, ds, ss, dx as int, dy as int, w as int, 0, py + 1, qx, qy)
                implies same_pixel(dst@, src@, pixel_at(ds, dx + qx, dy + qy), pixel_at(ss, qx, qy)) by {
                assert(before(w as int, qx, qy, w as int, py as int));
                assert forall|rx: int, ry: int| #[trigger] before(w as int, rx, ry, w as int, py as int) && after(rx, ry, qx, qy)
                    && copied(dl, sl, ds, ss, dx as int, dy as int, rx, ry)
                    implies pixel_at(ds, dx + rx, dy + ry) != pixel_at(ds, dx + qx, dy + qy) by {
                    assert(before(w as int, rx, ry, 0, py + 1));
                }
            }
        }
        py = py + 1;
    }
    proof {
        assert forall|j: int| 0 <= j < dl && !written(dl, sl, ds, ss, dx as int, dy as int, w as int, h as int, j)
            implies dst@[j] == orig[j] by {
            if written_before(dl, sl, ds, ss, dx as int, dy as int, w as int, 0, h as int, j) {
            }
        }
        if dx + w <= dst_stride {
            assert forall|qx: int, qy: int| 0 <= qx < w && 0 <= qy < h
                && #[trigger] copied(dl, sl, ds, ss, dx as int, dy as int, qx, qy)
                implies same_pixel(dst@, src@, pixel_at(ds, dx + qx, dy + qy), pixel_at(ss, qx, qy)) by {
                assert(before(w as int, qx, qy, 0, h as int));
            }
        }
        assert forall|qx: int, qy: int| 0 <= qx < w && 0 <= qy < h
            && #[trigger] copied(dl, sl, ds, ss, dx as int, dy as int, qx, qy)
            && unclobbered(dl, sl, ds, ss, dx as int, dy as int, w as int, 0, h as int, qx, qy)
            implies same_pixel(dst@, src@, pixel_at(ds, dx + qx, dy + qy), pixel_at(ss, qx, qy)) by {
            assert(before(w as int, qx, qy, 0, h as int));
        }
    }
}

/// Every pixel of `v` has the colour `c`.
pub open spec fn filled(v: Seq<u8>, c: Seq<u8>) -> bool {
    &&& v.len() % 4 == 0
    &&& forall|i: int| 0 <= i < v.len() ==> #[trigger] v[i] == c[i % 4]
}

/// An image of `n` pixels of one colour.
pub fn solid_pixels(n: usize, color: [u8; 4]) -> (v: Vec<u8>)
    requires
        n <= usize::MAX / 4,
    ensures
        v@.len() == n * 4,
        filled(v@, color@),
{
    let mut v: Vec<u8> = Vec::new();
    let mut k: usize = 0;
    while k < n
        invariant
            k <= n,
            n <= usize::MAX / 4,
            v@.len() == k * 4,
            forall|i: int| 0 <= i < v@.len() ==> #[trigger] v@[i] == color@[i % 4],
        decreases n - k,
    {
        let ghost before = v@;
        v.push(color[0]);
        v.push(color[1]);
        v.push(color[2]);
        v.push(color[3]);
        assert forall|i: int| 0 <= i < v@.len() implies #[trigger] v@[i] == color@[i % 4] by {
            if i < before.len() {
                assert(v@[i] == before[i]);
            } else {
                assert(i - k * 4 == i % 4) by (nonlinear_arith) requires k * 4 <= i < k * 4 + 4;
            }
        }
        k = k + 1;
    }
    v
}

/// The skin drawn when the player's skin cannot be loaded: 64 by 64 pixels
/// of one skin tone.
pub fn fallback_skin() -> (r: (Vec<u8>, u32, u32))
    ensures
        r.1 == 64 && r.2 == 64,
        r.0@.len() == 64 * 64 * 4,
        filled(r.0@, seq![196u8, 161u8, 125u8, 255u8]),
{
    let w: u32 = 64;
    let h: u32 = 64;
    let color: [u8; 4] = [196, 161, 125, 255];
    let pixels = solid_pixels((w * h) as usize, color);
    assert(color@ =~= seq![196u8, 161u8, 125u8, 255u8]);
    (pixels, w, h)
}

/// The texture drawn for a mob whose texture cannot be loaded: a square of
/// one pink.
pub fn fallback_texture(size: u32) -> (r: (Vec<u8>, u32, u32))
    requires
        size * size * 4 <= u32::MAX,
    ensures
        r.1 == size && r.2 == size,
        r.0@.len() == size * size * 4,
        filled(r.0@, seq![219u8, 148u8, 148u8, 255u8]),
{
    let color: [u8; 4] = [219, 148, 148, 255];
    assert(size * size <= u32::MAX);
    let pixels = solid_pixels((size * size) as usize, color);
    assert(color@ =~= seq![219u8, 148u8, 148u8, 255u8]);
    (pixels, size, size)
}

/// The width and height the inventory background is cut to.
pub const INV_TEX_W: u32 = 176;
pub const INV_TEX_H: u32 = 166;

/// Cuts the top-left `INV_TEX_W` by `INV_TEX_H` pixels (or less, for a
/// smaller image) out of an image `full_w` pixels wide and `full_h` high.
pub fn crop_inventory(rgba: &[u8], full_w: u32, full_h: u32) -> (r: (Vec<u8>, u32, u32))
    requires
        ({
            let cw = if full_w < INV_TEX_W { full_w as int } else { INV_TEX_W as int };
            let ch = if full_h < INV_TEX_H { full_h as int } else { INV_TEX_H as int };
            ch == 0 || (ch - 1) * full_w * 4 + cw * 4 <= rgba@.len() && (ch - 1) * full_w * 4 <= u32::MAX
        }),
    ensures
        r.1 == if full_w < INV_TEX_W { full_w } else { INV_TEX_W },
        r.2 == if full_h < INV_TEX_H { full_h } else { INV_TEX_H },
        r.0@.len() == r.1 * r.2 * 4,
        forall|y: int, x: int| 0 <= y < r.2 && 0 <= x < r.1 * 4 ==> #[trigger] r.0@[y * r.1 * 4 + x] == rgba@[y * full_w * 4 + x],
{
    let crop_w = if full_w < INV_TEX_W { full_w } else { INV_TEX_W };
    let crop_h = if full_h < INV_TEX_H { full_h } else { INV_TEX_H };
    let row_bytes = (crop_w * 4) as usize;
    let mut cropped: Vec<u8> = Vec::new();
    let mut y: u32 = 0;
    while y < crop_h
        invariant
            y <= crop_h,
            crop_w <= INV_TEX_W,
            crop_h <= INV_TEX_H,
            row_bytes == crop_w * 4,
            crop_w == if full_w < INV_TEX_W { full_w } else { INV_TEX_W },
            crop_h == if full_h < INV_TEX_H { full_h } else { INV_TEX_H },
            crop_h == 0 || (crop_h - 1) * full_w * 4 + crop_w * 4 <= rgba@.len() && (crop_h - 1) * full_w * 4 <= u32::MAX,
            cropped@.len() == y * crop_w * 4,
            forall|yy: int, x: int| 0 <= yy < y && 0 <= x < crop_w * 4 ==> #[trigger] cropped@[yy * crop_w * 4 + x] == rgba@[yy * full_w * 4 + x],
        decreases crop_h - y,
    {
        proof {
            lemma_mul_mono(y as int, crop_h - 1, full_w * 4);
            assert(y * full_w * 4 == y * (full_w * 4)) by (nonlinear_arith);
            assert((crop_h - 1) * full_w * 4 == (crop_h - 1) * (full_w * 4)) by (nonlinear_arith);
        }
        assert(y as u64 * full_w as u64 * 4 <= u32::MAX);
        let src_off = (y as u64 * full_w as u64 * 4) as usize;
        assert(src_off + row_bytes <= rgba@.len());
        let ghost before = cropped@;
        let mut x: usize = 0;
        while x < row_bytes
            invariant
                x <= row_bytes,
                row_bytes == crop_w * 4,
                src_off + row_bytes <= rgba.len(),
                src_off == y * full_w * 4,
                cropped@.len() == before.len() + x,
                before.len() == y * crop_w * 4,
                forall|i: int| 0 <= i < before.len() ==> cropped@[i] == before[i],
                forall|i: int| 0 <= i < x ==> #[trigger] rgba@[src_off + i] == cropped@[before.len() + i],
            decreases row_bytes - x,
        {
            cropped.push(rgba[src_off + x]);
            x = x + 1;
        }
        assert forall|yy: int, xx: int| 0 <= yy < y + 1 && 0 <= xx < crop_w * 4
            implies #[trigger] cropped@[yy * crop_w * 4 + xx] == rgba@[yy * full_w * 4 + xx] by {
            if yy < y {
                assert(yy * crop_w * 4 + xx < y * crop_w * 4) by (nonlinear_arith)
                    requires yy < y, 0 <= xx < crop_w * 4, 0 <= yy;
                assert(cropped@[yy * crop_w * 4 + xx] == before[yy * crop_w * 4 + xx]);
            } else {
                assert(yy * crop_w * 4 + xx == before.len() + xx);
            }
        }
        assert(cropped@.len() == (y + 1) * crop_w * 4) by (nonlinear_arith)
            requires cropped@.len() == y * crop_w * 4 + crop_w * 4;
        y = y + 1;
    }
    assert(crop_h * crop_w * 4 == crop_w * crop_h * 4) by (nonlinear_arith);
    (cropped, crop_w, crop_h)
}

/// The shelf packer's position: where the next sprite goes on the current
/// row, the row's top, and the height of its tallest sprite so far.
pub struct Shelf {
    pub x: int,
    pub y: int,
    pub row: int,
}

/// One sprite of width `w` and height `h` offered to the packer: when it does
/// not fit beside the row, a new row starts below; when it then does not fit
/// below the bottom, it is skipped, otherwise it goes at the current position.
pub open spec fn pack_step(s: Shelf, w: int, h: int, atlas: int) -> (Shelf, Option<(int, int)>) {
    let t = if s.x + w > atlas {
        Shelf { x: 0, y: s.y + s.row, row: 0 }
    } else {
        s
    };
    if t.y + h > atlas {
        (t, None)
    } else {
        (Shelf { x: t.x + w, y: t.y, row: if t.row >= h { t.row } else { h } }, Some((t.x, t.y)))
    }
}

/// The packer's position and the placements after offering all sprites in order.
pub open spec fn pack_all(sizes: Seq<(u32, u32)>, atlas: int) -> (Shelf, Seq<Option<(int, int)>>)
    decreases sizes.len(),
{
    if sizes.len() == 0 {
        (Shelf { x: 0, y: 0, row: 0 }, Seq::empty())
    } else {
        let prev = pack_all(sizes.drop_last(), atlas);
        let step = pack_step(prev.0, sizes.last().0 as int, sizes.last().1 as int, atlas);
        (step.0, prev.1.push(step.1))
    }
}

/// The contents of a list of placements.
pub open spec fn placement_views(v: Seq<Option<(u32, u32)>>) -> Seq<Option<(int, int)>> {
    v.map_values(|p: Option<(u32, u32)>| match p {
        Some(q) => Some((q.0 as int, q.1 as int)),
        None => None,
    })
}

/// Places sprites of the given sizes on a square atlas `atlas` pixels wide,
/// row by row; a sprite that does not fit is left out.
pub fn pack_sprites(sizes: &Vec<(u32, u32)>, atlas: u32) -> (r: Vec<Option<(u32, u32)>>)
    ensures
        placement_views(r@) == pack_all(sizes@, atlas as int).1,
{
    let mut out: Vec<Option<(u32, u32)>> = Vec::new();
    let mut cursor_x: u64 = 0;
    let mut cursor_y: u64 = 0;
    let mut row_height: u64 = 0;
    let mut i: usize = 0;
    while i < sizes.len()
        invariant
            i <= sizes@.len(),
            pack_all(sizes@.take(i as int), atlas as int).0 == (Shelf { x: cursor_x as int, y: cursor_y as int, row: row_height as int }),
            placement_views(out@) == pack_all(sizes@.take(i as int), atlas as int).1,
            cursor_x <= u32::MAX,
            cursor_y + row_height <= atlas,
        decreases sizes.len() - i,
    {
        proof {
            assert(sizes@.take(i + 1).drop_last() =~= sizes@.take(i as int));
            assert(sizes@.take(i + 1).last() == sizes@[i as int]);
        }
        let (w, h) = sizes[i];
        let w = w as u64;
        let h = h as u64;
        if cursor_x + w > atlas as u64 {
            cursor_x = 0;
            cursor_y = cursor_y + row_height;
            row_height = 0;
        }
        let ghost old_out = placement_views(out@);
        if cursor_y + h > atlas as u64 {
            out.push(None);
        } else {
            out.push(Some((cursor_x as u32, cursor_y as u32)));
            cursor_x = cursor_x + w;
            if h > row_height {
                row_height = h;
            }
        }
        assert(placement_views(out@) =~= old_out.push(pack_all(sizes@.take(i + 1), atlas as int).1.last()));
        i = i + 1;
    }
    assert(sizes@.take(sizes.len() as int) =~= sizes@);
    out
}

/// The rectangles of two placed sprites do not overlap.
pub open spec fn apart(a: (int, int), aw: int, ah: int, b: (int, int), bw: int, bh: int) -> bool {
    a.0 + aw <= b.0 || b.0 + bw <= a.0 || a.1 + ah <= b.1 || b.1 + bh <= a.1
}

/// What holds after any prefix of sprites is packed.
pub open spec fn pack_inv(sizes: Seq<(u32, u32)>, atlas: int) -> bool {
    let st = pack_all(sizes, atlas);
    let pl = st.1;
    &&& pl.len() == sizes.len()
    &&& 0 <= st.0.x <= atlas
    &&& 0 <= st.0.y
    &&& 0 <= st.0.row
    &&& st.0.y + st.0.row <= atlas
    &&& forall|i: int| 0 <= i < pl.len() && (#[trigger] pl[i]) is Some ==> {
        let p = pl[i]->0;
        &&& 0 <= p.0 && 0 <= p.1
        &&& p.0 + sizes[i].0 <= atlas
        &&& p.1 + sizes[i].1 <= atlas
        &&& (p.1 + sizes[i].1 <= st.0.y || (p.1 == st.0.y && p.0 + sizes[i].0 <= st.0.x && sizes[i].1 <= st.0.row))
    }
    &&& forall|i: int, j: int| 0 <= i < j < pl.len() && (#[trigger] pl[i]) is Some && (#[trigger] pl[j]) is Some
        ==> apart(pl[i]->0, sizes[i].0 as int, sizes[i].1 as int, pl[j]->0, sizes[j].0 as int, sizes[j].1 as int)
}

proof fn lemma_pack_inv(sizes: Seq<(u32, u32)>, atlas: int)
    requires
        0 <= atlas,
        forall|i: int| 0 <= i < sizes.len() ==> (#[trigger] sizes[i]).0 <= atlas,
    ensures
        pack_inv(sizes, atlas),
    decreases sizes.len(),
{
    if sizes.len() > 0 {
        let prev_sizes = sizes.drop_last();
        assert forall|i: int| 0 <= i < prev_sizes.len() implies (#[trigger] prev_sizes[i]).0 <= atlas by {
            assert(prev_sizes[i] == sizes[i]);
        }
        lemma_pack_inv(prev_sizes, atlas);
        let prev = pack_all(prev_sizes, atlas);
        let n = prev_sizes.len() as int;
        let w = sizes.last().0 as int;
        let h = sizes.last().1 as int;
        let s = prev.0;
        let t = if s.x + w > atlas {
            Shelf { x: 0, y: s.y + s.row, row: 0 }
        } else {
            s
        };
        let cur = pack_all(sizes, atlas);
        assert(sizes.last() == sizes[n]);
        assert forall|i: int| 0 <= i < n implies #[trigger] sizes[i] == prev_sizes[i] by {}
        assert forall|i: int| 0 <= i < n implies #[trigger] cur.1[i] == prev.1[i] by {}
        // Every earlier sprite lies above the new position or left of it on its row.
        assert forall|i: int| 0 <= i < n && (#[trigger] prev.1[i]) is Some implies {
            let p = prev.1[i]->0;
            p.1 + sizes[i].1 <= t.y || (p.1 == t.y && p.0 + sizes[i].0 <= t.x && sizes[i].1 <= t.row)
        } by {
            assert(sizes[i] == prev_sizes[i]);
        }
        assert forall|i: int| 0 <= i < cur.1.len() && (#[trigger] cur.1[i]) is Some implies {
            let p = cur.1[i]->0;
            &&& 0 <= p.0 && 0 <= p.1
            &&& p.0 + sizes[i].0 <= atlas
            &&& p.1 + sizes[i].1 <= atlas
            &&& (p.1 + sizes[i].1 <= cur.0.y || (p.1 == cur.0.y && p.0 + sizes[i].0 <= cur.0.x && sizes[i].1 <= cur.0.row))
        } by {
            if i < n {
                assert(cur.1[i] == prev.1[i]);
                assert(sizes[i] == prev_sizes[i]);
            }
        }
        assert forall|i: int, j: int| 0 <= i < j < cur.1.len() && (#[trigger] cur.1[i]) is Some && (#[trigger] cur.1[j]) is Some
            implies apart(cur.1[i]->0, sizes[i].0 as int, sizes[i].1 as int, cur.1[j]->0, sizes[j].0 as int, sizes[j].1 as int) by {
            assert(cur.1[i] == prev.1[i]);
            assert(sizes[i] == prev_sizes[i]);
            if j < n {
                assert(cur.1[j] == prev.1[j]);
                assert(sizes[j] == prev_sizes[j]);
            }
        }
    }
}

/// Sprites no wider than the atlas are placed inside it, and no two placed
/// sprites overlap.
pub proof fn law_packed_sprites_fit_and_do_not_overlap(sizes: Seq<(u32, u32)>, atlas: int)
    requires
        0 <= atlas,
        forall|i: int| 0 <= i < sizes.len() ==> (#[trigger] sizes[i]).0 <= atlas,
    ensures
        ({
            let pl = pack_all(sizes, atlas).1;
            &&& pl.len() == sizes.len()
            &&& forall|i: int| 0 <= i < pl.len() && (#[trigger] pl[i]) is Some ==> {
                let p = pl[i]->0;
                &&& 0 <= p.0 && p.0 + sizes[i].0 <= atlas
                &&& 0 <= p.1 && p.1 + sizes[i].1 <= atlas
            }
            &&& forall|i: int, j: int| 0 <= i < j < pl.len() && (#[trigger] pl[i]) is Some && (#[trigger] pl[j]) is Some
                ==> apart(pl[i]->0, sizes[i].0 as int, sizes[i].1 as int, pl[j]->0, sizes[j].0 as int, sizes[j].1 as int)
        }),
{
    lemma_pack_inv(sizes, atlas);
}

/// How many block-breaking stages there are.
pub const STAGE_COUNT: u32 = 10;

/// The tile size in force when stage `k` is added: the width of the last
/// stage image before it that loaded, or 16.
pub open spec fn tile_before(stages: Seq<Option<(Seq<u8>, u32)>>, k: int) -> u32
    decreases k,
{
    if k <= 0 {
        16
    } else {
        match stages[k - 1] {
            Some(img) => img.1,
            None => tile_before(stages, k - 1),
        }
    }
}

/// The pixels stage `k` adds to the atlas: its image, or a transparent tile
/// of the size in force.
pub open spec fn stage_pixels(stages: Seq<Option<(Seq<u8>, u32)>>, k: int) -> Seq<u8> {
    match stages[k] {
        Some(img) => img.0,
        None => Seq::new((tile_before(stages, k) * tile_before(stages, k) * 4) as nat, |i: int| 0u8),
    }
}

/// The atlas pixels of the first `k` stages, one after another.
pub open spec fn atlas_prefix(stages: Seq<Option<(Seq<u8>, u32)>>, k: int) -> Seq<u8>
    decreases k,
{
    if k <= 0 {
        Seq::empty()
    } else {
        atlas_prefix(stages, k - 1) + stage_pixels(stages, k - 1)
    }
}

/// The contents of the loaded stage images, each with its width.
pub open spec fn stage_views(stages: Seq<Option<(Vec<u8>, u32)>>) -> Seq<Option<(Seq<u8>, u32)>> {
    stages.map_values(|s: Option<(Vec<u8>, u32)>| match s {
        Some(img) => Some((img.0@, img.1)),
        None => None,
    })
}

/// Every tile size in force fits the arithmetic of the atlas.
pub open spec fn stage_sizes_fit(stages: Seq<Option<(Seq<u8>, u32)>>) -> bool {
    &&& forall|k: int| 0 <= k <= stages.len() ==> #[trigger] tile_before(stages, k) * tile_before(stages, k) * 4 <= u32::MAX
    &&& tile_before(stages, stages.len() as int) * STAGE_COUNT <= u32::MAX
}

/// The block-breaking atlas: the stage images, each given with its width or
/// missing, stacked top to bottom; a missing stage is a transparent tile of
/// the size of the last stage that loaded (16 before any). The atlas is as
/// wide as the last tile size and `STAGE_COUNT` tiles high.
pub fn destroy_atlas(stages: &Vec<Option<(Vec<u8>, u32)>>) -> (r: (Vec<u8>, u32, u32))
    requires
        stages@.len() == STAGE_COUNT,
        stage_sizes_fit(stage_views(stages@)),
        atlas_prefix(stage_views(stages@), STAGE_COUNT as int).len() <= usize::MAX,
    ensures
        r.0@ == atlas_prefix(stage_views(stages@), STAGE_COUNT as int),
        r.1 == tile_before(stage_views(stages@), STAGE_COUNT as int),
        r.2 == r.1 * STAGE_COUNT,
{
    let ghost sv = stage_views(stages@);
    let mut pixels: Vec<u8> = Vec::new();
    let mut tile: u32 = 16;
    let mut k: usize = 0;
    while k < stages.len()
        invariant
            k <= stages@.len(),
            stages@.len() == STAGE_COUNT,
            sv == stage_views(stages@),
            stage_sizes_fit(sv),
            atlas_prefix(sv, STAGE_COUNT as int).len() <= usize::MAX,
            tile == tile_before(sv, k as int),
            pixels@ == atlas_prefix(sv, k as int),
        decreases stages.len() - k,
    {
        proof {
            lemma_atlas_prefix_grows(sv, k + 1, STAGE_COUNT as int);
            assert(sv[k as int] == match stages@[k as int] {
                Some(img) => Some((img.0@, img.1)),
                None => None,
            });
        }
        match &stages[k] {
            Some(img) => {
                let ghost before = pixels@;
                let mut i: usize = 0;
                while i < img.0.len()
                    invariant
                        i <= img.0@.len(),
                        pixels@ == before + img.0@.take(i as int),
                    decreases img.0.len() - i,
                {
                    pixels.push(img.0[i]);
                    i = i + 1;
                    assert(pixels@ =~= before + img.0@.take(i as int));
                }
                assert(img.0@.take(img.0@.len() as int) =~= img.0@);
                tile = img.1;
            },
            None => {
                assert(tile * tile * 4 <= u32::MAX);
                let n: usize = (tile * tile * 4) as usize;
                let ghost before = pixels@;
                let mut i: usize = 0;
                while i < n
                    invariant
                        i <= n,
                        pixels@ == before + Seq::new(i as nat, |j: int| 0u8),
                    decreases n - i,
                {
                    pixels.push(0u8);
                    i = i + 1;
                    assert(pixels@ =~= before + Seq::new(i as nat, |j: int| 0u8));
                }
            },
        }
        k = k + 1;
    }
    (pixels, tile, tile * STAGE_COUNT)
}

/// The atlas pixels of fewer stages are no longer than those of more.
pub proof fn lemma_atlas_prefix_grows(stages: Seq<Option<(Seq<u8>, u32)>>, a: int, b: int)
    requires
        0 <= a <= b,
    ensures
        atlas_prefix(stages, a).len() <= atlas_prefix(stages, b).len(),
    decreases b - a,
{
    if a < b {
        lemma_atlas_prefix_grows(stages, a, b - 1);
    }
}

/// Width and height of the item atlas in pixels.
pub const ITEM_ATLAS_SIZE: u32 = 512;

/// Width and height of one item tile in pixels.
pub const ITEM_TILE: u32 = 16;

/// Tiles per row of the item atlas.
pub const ITEM_GRID: u32 = 32;

/// Where the item in slot `slot` goes in the item atlas: slots fill the
/// atlas row by row, one tile each; `None` once the atlas is full.
pub fn item_slot_origin(slot: u32) -> (r: Option<(u32, u32)>)
    ensures
        slot >= ITEM_GRID * ITEM_GRID ==> r is None,
        slot < ITEM_GRID * ITEM_GRID ==> r == Some((((slot % ITEM_GRID) * ITEM_TILE) as u32, ((slot / ITEM_GRID) * ITEM_TILE) as u32)),
{
    if slot >= ITEM_GRID * ITEM_GRID {
        None
    } else {
        Some(((slot % ITEM_GRID) * ITEM_TILE, (slot / ITEM_GRID) * ITEM_TILE))
    }
}

/// Each slot's tile lies inside the item atlas, and distinct slots get
/// distinct tiles.
pub proof fn law_item_slots_apart(a: u32, b: u32)
    requires
        a < ITEM_GRID * ITEM_GRID,
        b < ITEM_GRID * ITEM_GRID,
    ensures
        (a % ITEM_GRID) * ITEM_TILE + ITEM_TILE <= ITEM_ATLAS_SIZE,
        (a / ITEM_GRID) * ITEM_TILE + ITEM_TILE <= ITEM_ATLAS_SIZE,
        a != b ==> (a % ITEM_GRID, a / ITEM_GRID) != (b % ITEM_GRID, b / ITEM_GRID),
{
    assert(a == (a / ITEM_GRID) * ITEM_GRID + a % ITEM_GRID);
    assert(b == (b / ITEM_GRID) * ITEM_GRID + b % ITEM_GRID);
}

/// The sprites of the HUD and inventory screens.
#[derive(PartialEq, Eq, Structural, Clone, Copy, Debug, Hash)]
pub enum SpriteId {
    Hotbar,
    HotbarSelection,
    HeartContainer,
    HeartFull,
    HeartHalf,
    FoodEmpty,
    FoodFull,
    FoodHalf,
    InventoryBackground,
    EmptyHelmet,
    EmptyChestplate,
    EmptyLeggings,
    EmptyBoots,
    EmptyShield,
}

/// The sprites loaded into the sprite atlas, in loading order; the inventory
/// background comes last.
pub open spec fn sprite_order() -> Seq<SpriteId> {
    seq![
        SpriteId::Hotbar, SpriteId::HotbarSelection, SpriteId::HeartContainer, SpriteId::HeartFull,
        SpriteId::HeartHalf, SpriteId::FoodEmpty, SpriteId::FoodFull, SpriteId::FoodHalf,
        SpriteId::EmptyHelmet, SpriteId::EmptyChestplate, SpriteId::EmptyLeggings, SpriteId::EmptyBoots,
        SpriteId::EmptyShield, SpriteId::InventoryBackground,
    ]
}

/// The asset each sprite is loaded from.
pub open spec fn sprite_asset(id: SpriteId) -> Seq<char> {
    match id {
        SpriteId::Hotbar => "minecraft/textures/gui/sprites/hud/hotbar.png"@,
        SpriteId::HotbarSelection => "minecraft/textures/gui/sprites/hud/hotbar_selection.png"@,
        SpriteId::HeartContainer => "minecraft/textures/gui/sprites/hud/heart/container.png"@,
        SpriteId::HeartFull => "minecraft/textures/gui/sprites/hud/heart/full.png"@,
        SpriteId::HeartHalf => "minecraft/textures/gui/sprites/hud/heart/half.png"@,
        SpriteId::FoodEmpty => "minecraft/textures/gui/sprites/hud/food_empty.png"@,
        SpriteId::FoodFull => "minecraft/textures/gui/sprites/hud/food_full.png"@,
        SpriteId::FoodHalf => "minecraft/textures/gui/sprites/hud/food_half.png"@,
        SpriteId::InventoryBackground => "minecraft/textures/gui/container/inventory.png"@,
        SpriteId::EmptyHelmet => "minecraft/textures/gui/sprites/container/slot/helmet.png"@,
        SpriteId::EmptyChestplate => "minecraft/textures/gui/sprites/container/slot/chestplate.png"@,
        SpriteId::EmptyLeggings => "minecraft/textures/gui/sprites/container/slot/leggings.png"@,
        SpriteId::EmptyBoots => "minecraft/textures/gui/sprites/container/slot/boots.png"@,
        SpriteId::EmptyShield => "minecraft/textures/gui/sprites/container/slot/shield.png"@,
    }
}

impl SpriteId {
    /// The sprites in loading order.
    pub fn all() -> (v: Vec<SpriteId>)
        ensures
            v@ == sprite_order(),
    {
        let v = vec![
            SpriteId::Hotbar, SpriteId::HotbarSelection, SpriteId::HeartContainer, SpriteId::HeartFull,
            SpriteId::HeartHalf, SpriteId::FoodEmpty, SpriteId::FoodFull, SpriteId::FoodHalf,
            SpriteId::EmptyHelmet, SpriteId::EmptyChestplate, SpriteId::EmptyLeggings, SpriteId::EmptyBoots,
            SpriteId::EmptyShield, SpriteId::InventoryBackground,
        ];
        assert(v@ =~= sprite_order());
        v
    }

    /// The asset this sprite is loaded from; the inventory background is
    /// cut out of the inventory screen's texture.
    pub fn asset_key(&self) -> (k: &'static str)
        ensures
            k@ == sprite_asset(*self),
    {
        match self {
            SpriteId::Hotbar => "minecraft/textures/gui/sprites/hud/hotbar.png",
            SpriteId::HotbarSelection => "minecraft/textures/gui/sprites/hud/hotbar_selection.png",
            SpriteId::HeartContainer => "minecraft/textures/gui/sprites/hud/heart/container.png",
            SpriteId::HeartFull => "minecraft/textures/gui/sprites/hud/heart/full.png",
            SpriteId::HeartHalf => "minecraft/textures/gui/sprites/hud/heart/half.png",
            SpriteId::FoodEmpty => "minecraft/textures/gui/sprites/hud/food_empty.png",
            SpriteId::FoodFull => "minecraft/textures/gui/sprites/hud/food_full.png",
            SpriteId::FoodHalf => "minecraft/textures/gui/sprites/hud/food_half.png",
            SpriteId::InventoryBackground => "minecraft/textures/gui/container/inventory.png",
            SpriteId::EmptyHelmet => "minecraft/textures/gui/sprites/container/slot/helmet.png",
            SpriteId::EmptyChestplate => "minecraft/textures/gui/sprites/container/slot/chestplate.png",
            SpriteId::EmptyLeggings => "minecraft/textures/gui/sprites/container/slot/leggings.png",
            SpriteId::EmptyBoots => "minecraft/textures/gui/sprites/container/slot/boots.png",
            SpriteId::EmptyShield => "minecraft/textures/gui/sprites/container/slot/shield.png",
        }
    }
}

/// The one-pixel magenta image used for a sprite that cannot be loaded.
pub fn missing_sprite() -> (r: (Vec<u8>, u32, u32))
    ensures
        r.0@ == seq![255u8, 0u8, 255u8, 255u8],
        r.1 == 1 && r.2 == 1,
{
    let v: Vec<u8> = vec![255, 0, 255, 255];
    assert(v@ =~= seq![255u8, 0u8, 255u8, 255u8]);
    (v, 1, 1)
}

} // verus!
