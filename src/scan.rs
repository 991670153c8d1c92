use vstd::prelude::*;

use crate::frame::{Frame, PixelKind};
use crate::kernel::{first_min_index, is_first_min};
use crate::noise::{lcg_iter, lcg_samples};

verus! {

/// Generator outputs drawn for each quantized pixel: two per RGB channel, red first.
pub const SAMPLES_PER_PIXEL: usize = 6;

/// Number of quantized pixels before pixel `p`.
pub open spec fn quantized_before(f: Frame, p: int) -> nat
    decreases p,
{
    if p <= 0 {
        0
    } else {
        quantized_before(f, p - 1) + if f.kind(p - 1) == PixelKind::Quantize {
            1nat
        } else {
            0nat
        }
    }
}

/// The four bytes of pixel `q` in a flat RGBA buffer.
pub open spec fn pixel_of(s: Seq<u8>, q: int) -> Seq<u8> {
    s.subrange(4 * q, 4 * q + 4)
}

/// The row-major pass over a frame: it writes the output one pixel at a time and hands
/// out the noise samples in the order that makes a pass reproducible from its seed.
///
/// The floating-point work (noise, distances, error accumulation) stays with the
/// caller, which reports back the palette colour it picked for each quantized pixel.
pub struct Scan {
    /// The next pixel to write.
    pub pos: usize,
    /// Generator state.
    pub rng: u32,
    /// Whether the noise of the pixel at `pos` has been drawn.
    pub drawn: bool,
    /// Flat RGBA output; pixels from `pos` on are still zero.
    pub output: Vec<u8>,
    /// The seed the pass started from.
    pub seed: Ghost<u32>,
    /// The palette colour picked for each pixel written so far.
    pub choices: Ghost<Seq<int>>,
}

impl Scan {
    /// The pass is consistent with frame `f`.
    pub open spec fn wf(&self, f: &Frame) -> bool {
        &&& f.wf()
        &&& self.output@.len() == 4 * f.pixels()
        &&& self.pos <= f.pixels()
        &&& self.drawn ==> self.pos < f.pixels() && f.kind(self.pos as int) == PixelKind::Quantize
        &&& self.rng == lcg_iter(
            self.seed@,
            (SAMPLES_PER_PIXEL * (quantized_before(*f, self.pos as int) + if self.drawn {
                1nat
            } else {
                0nat
            })) as nat,
        )
        &&& self.choices@.len() == self.pos
        &&& forall|q: int|
            0 <= q < self.pos ==> #[trigger] pixel_of(self.output@, q) == f.out_pixel(
                q,
                self.choices@[q],
            )
        &&& forall|q: int|
            0 <= q < self.pos && f.kind(q) == PixelKind::Quantize ==> 0 <= #[trigger] self.choices@[q]
                < f.colors()
        &&& forall|i: int| 4 * self.pos <= i < self.output@.len() ==> #[trigger] self.output@[i] == 0
    }

    /// Starts a pass over `f` with the generator seeded by `seed`.
    pub fn new(f: &Frame, seed: u32) -> (r: Scan)
        requires
            f.wf(),
        ensures
            r.wf(f),
            r.pos == 0,
            !r.drawn,
            r.rng == seed,
            r.seed@ == seed,
    {
        let orig_len = f.original.len();
        let n = f.width * f.height;
        let output: Vec<u8> = vec![0u8; n * 4];
        Scan { pos: 0, rng: seed, drawn: false, output, seed: Ghost(seed), choices: Ghost(Seq::empty()) }
    }

    /// What the pass does at the next pixel.
    pub fn current_kind(&self, f: &Frame) -> (r: PixelKind)
        requires
            self.wf(f),
            self.pos < f.pixels(),
        ensures
            r == f.kind(self.pos as int),
    {
        f.pixel_kind(self.pos)
    }

    /// Writes the next pixel and moves on.
    fn emit(&mut self, f: &Frame, px: (u8, u8, u8, u8), choice: Ghost<int>)
        requires
            old(self).wf(f),
            old(self).pos < f.pixels(),
            f.out_pixel(old(self).pos as int, choice@) == seq![px.0, px.1, px.2, px.3],
            f.kind(old(self).pos as int) == PixelKind::Quantize ==> old(self).drawn && 0 <= choice@
                < f.colors(),
            f.kind(old(self).pos as int) != PixelKind::Quantize ==> !old(self).drawn,
        ensures
            final(self).wf(f),
            final(self).pos == old(self).pos + 1,
            !final(self).drawn,
            final(self).rng == old(self).rng,
            final(self).seed == old(self).seed,
            final(self).choices@ == old(self).choices@.push(choice@),
    {
        let ghost old_out = self.output@;
        let out_len = self.output.len();
        let i = 4 * self.pos;
        self.output.set(i, px.0);
        self.output.set(i + 1, px.1);
        self.output.set(i + 2, px.2);
        self.output.set(i + 3, px.3);
        let ghost p = self.pos as int;
        self.pos = self.pos + 1;
        self.drawn = false;
        self.choices = Ghost(self.choices@.push(choice@));
        proof {
            assert(quantized_before(*f, p + 1) == quantized_before(*f, p) + if f.kind(p)
                == PixelKind::Quantize {
                1nat
            } else {
                0nat
            });
            assert forall|q: int| 0 <= q < self.pos implies #[trigger] pixel_of(self.output@, q)
                == f.out_pixel(q, self.choices@[q]) by {
                if q < p {
                    assert(pixel_of(self.output@, q) =~= pixel_of(old_out, q));
                } else {
                    assert(pixel_of(self.output@, q) =~= seq![px.0, px.1, px.2, px.3]);
                }
            }
            assert forall|q: int|
                0 <= q < self.pos && f.kind(q) == PixelKind::Quantize implies 0
                    <= #[trigger] self.choices@[q] < f.colors() by {
                if q < p {
                    assert(self.choices@[q] == old(self).choices@[q]);
                }
            }
        }
    }

    /// Writes the next pixel, which is transparent, as four zero bytes.
    pub fn skip_transparent(&mut self, f: &Frame)
        requires
            old(self).wf(f),
            old(self).pos < f.pixels(),
            f.kind(old(self).pos as int) == PixelKind::Transparent,
        ensures
            final(self).wf(f),
            final(self).pos == old(self).pos + 1,
            final(self).rng == old(self).rng,
            final(self).seed == old(self).seed,
            pixel_of(final(self).output@, old(self).pos as int) == seq![0u8, 0u8, 0u8, 0u8],
    {
        let ghost p = self.pos as int;
        self.emit(f, (0, 0, 0, 0), Ghost(0));
        assert(pixel_of(self.output@, p) == f.out_pixel(p, 0));
    }

    /// Writes the next pixel, which is frozen, with the previous frame's colour and the
    /// original alpha; returns the colour written.
    pub fn place_frozen(&mut self, f: &Frame) -> (r: (u8, u8, u8))
        requires
            old(self).wf(f),
            old(self).pos < f.pixels(),
            f.kind(old(self).pos as int) == PixelKind::Frozen,
        ensures
            final(self).wf(f),
            final(self).pos == old(self).pos + 1,
            final(self).rng == old(self).rng,
            final(self).seed == old(self).seed,
            seq![r.0, r.1, r.2] == f.prev_rgb(old(self).pos as int),
            pixel_of(final(self).output@, old(self).pos as int) == f.prev_rgb(
                old(self).pos as int,
            ).push(f.alpha(old(self).pos as int)),
    {
        let p = self.pos;
        let orig_len = f.original.len();
        let prev = match &f.prev {
            Some(v) => v,
            None => {
                return (0, 0, 0);
            },
        };
        let prev_len = prev.len();
        let r = (prev[4 * p], prev[4 * p + 1], prev[4 * p + 2]);
        let a = f.original[4 * p + 3];
        assert(f.out_pixel(p as int, 0) =~= seq![r.0, r.1, r.2, a]);
        self.emit(f, (r.0, r.1, r.2, a), Ghost(0));
        assert(pixel_of(self.output@, p as int) == f.out_pixel(p as int, 0));
        assert(seq![r.0, r.1, r.2] =~= f.prev_rgb(p as int));
        r
    }

    /// Draws the noise of the next pixel, which is quantized: six generator outputs, two
    /// for each of red, green and blue in that order.
    pub fn draw_noise(&mut self, f: &Frame) -> (r: Vec<u32>)
        requires
            old(self).wf(f),
            old(self).pos < f.pixels(),
            f.kind(old(self).pos as int) == PixelKind::Quantize,
            !old(self).drawn,
        ensures
            final(self).wf(f),
            final(self).drawn,
            final(self).pos == old(self).pos,
            final(self).seed == old(self).seed,
            final(self).choices == old(self).choices,
            final(self).output == old(self).output,
            r@.len() == SAMPLES_PER_PIXEL,
            forall|k: int|
                0 <= k < SAMPLES_PER_PIXEL ==> r@[k] == lcg_iter(old(self).rng, (k + 1) as nat),
            final(self).rng == lcg_iter(old(self).rng, SAMPLES_PER_PIXEL as nat),
    {
        let (samples, next) = lcg_samples(self.rng, SAMPLES_PER_PIXEL);
        self.rng = next;
        self.drawn = true;
        proof {
            lemma_lcg_iter_add(
                self.seed@,
                (SAMPLES_PER_PIXEL * quantized_before(*f, self.pos as int)) as nat,
                SAMPLES_PER_PIXEL as nat,
            );
        }
        samples
    }

    /// Writes the next pixel, which is quantized and whose noise has been drawn, with
    /// palette colour `choice` and the original alpha; returns the colour written.
    pub fn place_quantized(&mut self, f: &Frame, choice: usize) -> (r: (u8, u8, u8))
        requires
            old(self).wf(f),
            old(self).pos < f.pixels(),
            f.kind(old(self).pos as int) == PixelKind::Quantize,
            old(self).drawn,
            choice < f.colors(),
        ensures
            final(self).wf(f),
            final(self).pos == old(self).pos + 1,
            !final(self).drawn,
            final(self).rng == old(self).rng,
            final(self).seed == old(self).seed,
            final(self).choices@ == old(self).choices@.push(choice as int),
            seq![r.0, r.1, r.2] == f.palette_rgb(choice as int),
            pixel_of(final(self).output@, old(self).pos as int) == f.palette_rgb(choice as int).push(
                f.alpha(old(self).pos as int),
            ),
    {
        let p = self.pos;
        let orig_len = f.original.len();
        let pal_len = f.palette.len();
        assert(3 * choice + 2 < pal_len) by (nonlinear_arith)
            requires
                choice < pal_len as int / 3,
        ;
        let r = (f.palette[3 * choice], f.palette[3 * choice + 1], f.palette[3 * choice + 2]);
        let a = f.original[4 * p + 3];
        assert(f.out_pixel(p as int, choice as int) =~= seq![r.0, r.1, r.2, a]);
        self.emit(f, (r.0, r.1, r.2, a), Ghost(choice as int));
        assert(pixel_of(self.output@, p as int) == f.out_pixel(p as int, choice as int));
        assert(seq![r.0, r.1, r.2] =~= f.palette_rgb(choice as int));
        r
    }

    /// Writes the next pixel, which is quantized and whose noise has been drawn, with the
    /// palette colour of least key (`keys` holds one key per palette colour, ordered as
    /// the distances are); where several keys are least, the first of them wins.
    pub fn place_nearest(&mut self, f: &Frame, keys: &Vec<u32>) -> (r: (u8, u8, u8))
        requires
            old(self).wf(f),
            old(self).pos < f.pixels(),
            f.kind(old(self).pos as int) == PixelKind::Quantize,
            old(self).drawn,
            keys@.len() == f.colors(),
            keys@.len() > 0,
        ensures
            final(self).wf(f),
            final(self).pos == old(self).pos + 1,
            !final(self).drawn,
            final(self).rng == old(self).rng,
            final(self).seed == old(self).seed,
            is_first_min(keys@, final(self).choices@[old(self).pos as int]),
            seq![r.0, r.1, r.2] == f.palette_rgb(final(self).choices@[old(self).pos as int]),
    {
        let k = first_min_index(keys);
        let ghost p = self.pos as int;
        let r = self.place_quantized(f, k);
        assert(self.choices@[p] == k);
        r
    }

    /// Ends a pass that has written every pixel and hands out the output.
    pub fn finish(self, f: &Frame) -> (r: Vec<u8>)
        requires
            self.wf(f),
            self.pos == f.pixels(),
        ensures
            r@ == self.output@,
            r@.len() == 4 * f.pixels(),
            forall|p: int|
                0 <= p < f.pixels() ==> #[trigger] pixel_of(r@, p) == f.out_pixel(p, self.choices@[p]),
            forall|p: int|
                0 <= p < f.pixels() && f.alpha(p) == 0 ==> #[trigger] pixel_of(r@, p) == seq![
                    0u8,
                    0u8,
                    0u8,
                    0u8,
                ],
            forall|p: int|
                0 <= p < f.pixels() && f.alpha(p) != 0 ==> #[trigger] pixel_of(r@, p)[3] == f.alpha(
                    p,
                ),
            forall|p: int|
                0 <= p < f.pixels() && f.alpha(p) != 0 && f.frozen(p) ==> #[trigger] pixel_of(
                    r@,
                    p,
                ).take(3) == f.prev_rgb(p),
            forall|p: int|
                0 <= p < f.pixels() && f.kind(p) == PixelKind::Quantize ==> exists|k: int|
                    0 <= k < f.colors() && pixel_of(r@, p).take(3) == #[trigger] f.palette_rgb(k),
    {
        proof {
            assert forall|p: int|
                0 <= p < f.pixels() && f.alpha(p) != 0 && f.frozen(p) implies #[trigger] pixel_of(
                    self.output@,
                    p,
                ).take(3) == f.prev_rgb(p) by {
                assert(pixel_of(self.output@, p) == f.out_pixel(p, self.choices@[p]));
                assert(pixel_of(self.output@, p).take(3) =~= f.prev_rgb(p));
            }
            assert forall|p: int|
                0 <= p < f.pixels() && f.kind(p) == PixelKind::Quantize implies exists|k: int|
                    0 <= k < f.colors() && pixel_of(self.output@, p).take(3)
                        == #[trigger] f.palette_rgb(k) by {
                let k = self.choices@[p];
                assert(pixel_of(self.output@, p) == f.out_pixel(p, k));
                assert(pixel_of(self.output@, p).take(3) =~= f.palette_rgb(k));
            }
            assert forall|p: int|
                0 <= p < f.pixels() && f.alpha(p) != 0 implies #[trigger] pixel_of(
                    self.output@,
                    p,
                )[3] == f.alpha(p) by {
                assert(pixel_of(self.output@, p) == f.out_pixel(p, self.choices@[p]));
            }
        }
        self.output
    }
}

/// A pass is reproducible: two passes over the same frame from the same seed that have
/// reached the same pixel with the same palette choices hold byte-identical output and
/// the same generator state.
pub proof fn lemma_scan_deterministic(f: &Frame, a: &Scan, b: &Scan)
    requires
        a.wf(f),
        b.wf(f),
        a.pos == b.pos,
        a.drawn == b.drawn,
        a.seed@ == b.seed@,
        a.choices@ == b.choices@,
    ensures
        a.output@ == b.output@,
        a.rng == b.rng,
{
    assert forall|i: int| 0 <= i < a.output@.len() implies a.output@[i] == b.output@[i] by {
        if i < 4 * a.pos {
            let q = i / 4;
            assert(0 <= q < a.pos);
            assert(pixel_of(a.output@, q) == pixel_of(b.output@, q));
            assert(pixel_of(a.output@, q)[i - 4 * q] == a.output@[i]);
            assert(pixel_of(b.output@, q)[i - 4 * q] == b.output@[i]);
        } else {
            assert(a.output@[i] == 0);
            assert(b.output@[i] == 0);
        }
    }
    assert(a.output@ =~= b.output@);
}

/// Steps of the generator compose.
pub proof fn lemma_lcg_iter_add(s: u32, a: nat, b: nat)
    ensures
        lcg_iter(lcg_iter(s, a), b) == lcg_iter(s, a + b),
    decreases b,
{
    if b > 0 {
        lemma_lcg_iter_add(s, a, (b - 1) as nat);
    }
}

} // verus!
