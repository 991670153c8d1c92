use vstd::prelude::*;

use crate::frame::Frame;

verus! {

/// Index of the pixel at column `x` of row `y` lies inside a `w` by `h` canvas.
pub proof fn lemma_pixel_index(x: int, y: int, w: int, h: int)
    requires
        0 <= x < w,
        0 <= y < h,
    ensures
        0 <= y * w + x < w * h,
{
    assert(0 <= y * w) by (nonlinear_arith)
        requires
            0 <= y,
            0 <= w,
    ;
    assert((y + 1) * w <= h * w) by (nonlinear_arith)
        requires
            y + 1 <= h,
            0 <= w,
    ;
    assert((y + 1) * w == y * w + w) by (nonlinear_arith);
    assert(h * w == w * h) by (nonlinear_arith);
}

/// Sum of squared differences of the RGB channels of the pixels at byte offsets `a` and `b`.
pub open spec fn rgb_sq_dist(o: Seq<u8>, a: int, b: int) -> int {
    (o[a] - o[b]) * (o[a] - o[b]) + (o[a + 1] - o[b + 1]) * (o[a + 1] - o[b + 1]) + (o[a + 2]
        - o[b + 2]) * (o[a + 2] - o[b + 2])
}

/// Squared colour change of the original image at (`x`, `y`), against the pixel to its
/// left and the pixel above, where they exist.
pub open spec fn gradient(f: Frame, x: int, y: int) -> int {
    let o = f.original@;
    let w = f.width as int;
    let here = 4 * (y * w + x);
    (if x > 0 {
        rgb_sq_dist(o, here, 4 * (y * w + x - 1))
    } else {
        0
    }) + (if y > 0 {
        rgb_sq_dist(o, here, 4 * ((y - 1) * w + x))
    } else {
        0
    })
}

fn channel_sq(a: u8, b: u8) -> (r: u32)
    ensures
        r == (a - b) * (a - b),
        r <= 65025,
{
    let d: i32 = a as i32 - b as i32;
    assert(d * d <= 65025) by (nonlinear_arith)
        requires
            -255 <= d <= 255,
    ;
    assert(d * d >= 0) by (nonlinear_arith);
    (d * d) as u32
}

fn pixel_sq_dist(o: &Vec<u8>, a: usize, b: usize) -> (r: u32)
    requires
        a + 2 < o@.len(),
        b + 2 < o@.len(),
    ensures
        r == rgb_sq_dist(o@, a as int, b as int),
        r <= 3 * 65025,
{
    let len = o.len();
    channel_sq(o[a], o[b]) + channel_sq(o[a + 1], o[b + 1]) + channel_sq(o[a + 2], o[b + 2])
}

/// Squared colour change of the original image at (`x`, `y`); see [`gradient`].
pub fn gradient_sq(f: &Frame, x: usize, y: usize) -> (r: u32)
    requires
        f.wf(),
        x < f.width,
        y < f.height,
    ensures
        r == gradient(*f, x as int, y as int),
{
    let w = f.width;
    proof {
        lemma_pixel_index(x as int, y as int, w as int, f.height as int);
    }
    let orig_len = f.original.len();
    let here = (y * w + x) * 4;
    let mut g: u32 = 0;
    if x > 0 {
        g = g + pixel_sq_dist(&f.original, here, (y * w + (x - 1)) * 4);
    }
    if y > 0 {
        proof {
            lemma_pixel_index(x as int, y - 1, w as int, f.height as int);
        }
        g = g + pixel_sq_dist(&f.original, here, ((y - 1) * w + x) * 4);
    }
    g
}

/// Quantization error of pixel `p`, per RGB channel: the original value minus the output
/// value, before any clipping.
pub fn raw_error(f: &Frame, p: usize, rgb: (u8, u8, u8)) -> (r: (i32, i32, i32))
    requires
        f.wf(),
        p < f.pixels(),
    ensures
        r.0 == f.original@[4 * p] - rgb.0,
        r.1 == f.original@[4 * p + 1] - rgb.1,
        r.2 == f.original@[4 * p + 2] - rgb.2,
        -255 <= r.0 <= 255,
        -255 <= r.1 <= 255,
        -255 <= r.2 <= 255,
{
    let len = f.original.len();
    let i = 4 * p;
    (
        f.original[i] as i32 - rgb.0 as i32,
        f.original[i + 1] as i32 - rgb.1 as i32,
        f.original[i + 2] as i32 - rgb.2 as i32,
    )
}

/// A neighbour that receives part of a pixel's quantization error.
#[derive(Debug, Clone, Copy, PartialEq, Eq, Structural)]
pub struct Spread {
    /// Index of the receiving pixel, row-major.
    pub pixel: usize,
    /// Its share of the error, in sixteenths.
    pub weight: u8,
}

/// The Floyd-Steinberg neighbours of (`x`, `y`) that lie on a `w` by `h` canvas, as
/// (pixel index, sixteenths), in the order east, south-west, south, south-east.
pub open spec fn spread_targets(x: int, y: int, w: int, h: int) -> Seq<(int, int)> {
    let east = if x + 1 < w {
        seq![(y * w + x + 1, 7)]
    } else {
        Seq::empty()
    };
    let south_west = if y + 1 < h && x > 0 {
        seq![((y + 1) * w + x - 1, 3)]
    } else {
        Seq::empty()
    };
    let south = if y + 1 < h {
        seq![((y + 1) * w + x, 5)]
    } else {
        Seq::empty()
    };
    let south_east = if y + 1 < h && x + 1 < w {
        seq![((y + 1) * w + x + 1, 1)]
    } else {
        Seq::empty()
    };
    east + south_west + south + south_east
}

/// A `Spread` seen as a pair of integers.
pub open spec fn spread_pair(s: Spread) -> (int, int) {
    (s.pixel as int, s.weight as int)
}

/// The neighbours of (`x`, `y`) that receive its quantization error.
///
/// Every one lies on the canvas and comes later in row-major order than (`x`, `y`), so
/// no error wraps around an edge or flows back to a pixel already written; the
/// bottom-right pixel has none.
pub fn diffusion_targets(x: usize, y: usize, w: usize, h: usize) -> (r: Vec<Spread>)
    requires
        x < w,
        y < h,
        w * h <= usize::MAX,
    ensures
        r@.map_values(|s: Spread| spread_pair(s)) == spread_targets(x as int, y as int, w as int, h as int),
        r@.len() == spread_targets(x as int, y as int, w as int, h as int).len(),
        forall|i: int|
            0 <= i < r@.len() ==> spread_pair(#[trigger] r@[i]) == spread_targets(
                x as int,
                y as int,
                w as int,
                h as int,
            )[i],
        forall|i: int|
            0 <= i < r@.len() ==> y * w + x < #[trigger] r@[i].pixel < w * h,
        x + 1 == w && y + 1 == h ==> r@.len() == 0,
{
    let mut r: Vec<Spread> = Vec::new();
    proof {
        lemma_pixel_index(x as int, y as int, w as int, h as int);
    }
    let here = y * w + x;
    if x + 1 < w {
        proof {
            lemma_pixel_index(x + 1, y as int, w as int, h as int);
        }
        r.push(Spread { pixel: here + 1, weight: 7 });
    }
    if y + 1 < h {
        proof {
            lemma_pixel_index(x as int, y + 1, w as int, h as int);
            assert((y + 1) * w == y * w + w) by (nonlinear_arith);
        }
        let below = (y + 1) * w + x;
        if x > 0 {
            r.push(Spread { pixel: below - 1, weight: 3 });
        }
        r.push(Spread { pixel: below, weight: 5 });
        if x + 1 < w {
            proof {
                lemma_pixel_index(x + 1, y + 1, w as int, h as int);
            }
            r.push(Spread { pixel: below + 1, weight: 1 });
        }
    }
    assert(r@.map_values(|s: Spread| spread_pair(s)) =~= spread_targets(
        x as int,
        y as int,
        w as int,
        h as int,
    ));
    assert forall|i: int| 0 <= i < r@.len() implies spread_pair(#[trigger] r@[i])
        == spread_targets(x as int, y as int, w as int, h as int)[i] by {
        assert(r@.map_values(|s: Spread| spread_pair(s))[i] == spread_pair(r@[i]));
    }
    r
}

/// `k` is the index of the least key, and the first of them where several are least.
pub open spec fn is_first_min(keys: Seq<u32>, k: int) -> bool {
    &&& 0 <= k < keys.len()
    &&& forall|i: int| 0 <= i < keys.len() ==> keys[k] <= #[trigger] keys[i]
    &&& forall|i: int| 0 <= i < k ==> keys[k] < #[trigger] keys[i]
}

/// Index of the least key; where several keys are least, the first of them.
pub fn first_min_index(keys: &Vec<u32>) -> (r: usize)
    requires
        keys@.len() > 0,
    ensures
        is_first_min(keys@, r as int),
{
    let mut best: usize = 0;
    let mut i: usize = 1;
    while i < keys.len()
        invariant
            0 < i <= keys@.len(),
            best < i,
            forall|j: int| 0 <= j < i ==> keys@[best as int] <= #[trigger] keys@[j],
            forall|j: int| 0 <= j < best ==> keys@[best as int] < #[trigger] keys@[j],
        decreases keys@.len() - i,
    {
        if keys[i] < keys[best] {
            best = i;
        }
        i = i + 1;
    }
    best
}

} // verus!
