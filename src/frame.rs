use vstd::prelude::*;

verus! {

/// Why a set of input buffers cannot be dithered.
#[derive(Debug, Clone, Copy, PartialEq, Eq, Structural)]
pub enum DitherError {
    /// `width * height` does not fit in a `usize`.
    DimensionOverflow,
    /// The original image holds fewer than `4 * width * height` bytes.
    OriginalTooSmall,
    /// The previous frame holds fewer than `4 * width * height` bytes.
    PrevTooSmall,
    /// The palette length is not a multiple of 3.
    PaletteNotTriplets,
    /// The freeze mask holds fewer than `width * height` bytes.
    FreezeMaskTooSmall,
}

/// The description that `message` gives of each error.
pub open spec fn error_text(e: DitherError) -> Seq<char> {
    match e {
        DitherError::DimensionOverflow => "width*height overflow"@,
        DitherError::OriginalTooSmall => "original buffer too small"@,
        DitherError::PrevTooSmall => "prev_dithered buffer too small"@,
        DitherError::PaletteNotTriplets => "palette length must be multiple of 3"@,
        DitherError::FreezeMaskTooSmall => "freeze_mask buffer too small"@,
    }
}

impl DitherError {
    /// A short description of the error.
    pub fn message(&self) -> (r: String)
        ensures
            r@ == error_text(*self),
    {
        match self {
            DitherError::DimensionOverflow => "width*height overflow".to_owned(),
            DitherError::OriginalTooSmall => "original buffer too small".to_owned(),
            DitherError::PrevTooSmall => "prev_dithered buffer too small".to_owned(),
            DitherError::PaletteNotTriplets => "palette length must be multiple of 3".to_owned(),
            DitherError::FreezeMaskTooSmall => "freeze_mask buffer too small".to_owned(),
        }
    }
}

/// What the scan does at one pixel.
#[derive(Debug, Clone, Copy, PartialEq, Eq, Structural)]
pub enum PixelKind {
    /// Alpha is zero: the output is all zero and no error leaves the pixel.
    Transparent,
    /// The previous frame's colour is kept.
    Frozen,
    /// A palette colour is chosen for the noisy accumulated colour.
    Quantize,
}

/// The first shape violation among the inputs, in the order in which they are checked.
pub open spec fn shape_error(
    orig_len: int,
    prev_len: Option<int>,
    palette_len: int,
    mask_len: Option<int>,
    width: int,
    height: int,
) -> Option<DitherError> {
    if width * height > usize::MAX {
        Some(DitherError::DimensionOverflow)
    } else if orig_len < 4 * (width * height) {
        Some(DitherError::OriginalTooSmall)
    } else if prev_len is Some && prev_len->0 < 4 * (width * height) {
        Some(DitherError::PrevTooSmall)
    } else if palette_len % 3 != 0 {
        Some(DitherError::PaletteNotTriplets)
    } else if mask_len is Some && mask_len->0 < width * height {
        Some(DitherError::FreezeMaskTooSmall)
    } else {
        None
    }
}

/// Length of an optional buffer, as the shape checks see it.
pub open spec fn opt_len(b: Option<Vec<u8>>) -> Option<int> {
    match b {
        Some(v) => Some(v@.len() as int),
        None => None,
    }
}

/// The read-only inputs of one dithering pass.
pub struct Frame {
    /// Flat RGBA bytes of the image to dither, row-major.
    pub original: Vec<u8>,
    /// Flat RGBA bytes of the previous frame's dithered output.
    pub prev: Option<Vec<u8>>,
    /// Flat RGB triplets of the palette.
    pub palette: Vec<u8>,
    /// One byte per pixel; nonzero asks to keep the previous frame's colour.
    pub freeze_mask: Option<Vec<u8>>,
    /// Canvas width in pixels.
    pub width: usize,
    /// Canvas height in pixels.
    pub height: usize,
}

impl Frame {
    /// Number of pixels.
    pub open spec fn pixels(&self) -> int {
        self.width * self.height
    }

    /// Number of palette colours.
    pub open spec fn colors(&self) -> int {
        self.palette@.len() as int / 3
    }

    /// The buffers have the shape that the dimensions ask for.
    pub open spec fn wf(&self) -> bool {
        shape_error(
            self.original@.len() as int,
            opt_len(self.prev),
            self.palette@.len() as int,
            opt_len(self.freeze_mask),
            self.width as int,
            self.height as int,
        ) is None
    }

    /// The original alpha byte of pixel `p`.
    pub open spec fn alpha(&self, p: int) -> u8 {
        self.original@[4 * p + 3]
    }

    /// Whether pixel `p` takes the previous frame's colour.
    pub open spec fn frozen(&self, p: int) -> bool {
        self.freeze_mask is Some && self.freeze_mask->0@[p] != 0 && self.prev is Some
    }

    /// What the scan does at pixel `p`.
    pub open spec fn kind(&self, p: int) -> PixelKind {
        if self.alpha(p) == 0 {
            PixelKind::Transparent
        } else if self.frozen(p) {
            PixelKind::Frozen
        } else {
            PixelKind::Quantize
        }
    }

    /// RGB of palette colour `k`.
    pub open spec fn palette_rgb(&self, k: int) -> Seq<u8> {
        seq![self.palette@[3 * k], self.palette@[3 * k + 1], self.palette@[3 * k + 2]]
    }

    /// RGB of pixel `p` in the previous frame.
    pub open spec fn prev_rgb(&self, p: int) -> Seq<u8> {
        let v = self.prev->0@;
        seq![v[4 * p], v[4 * p + 1], v[4 * p + 2]]
    }

    /// The four output bytes of pixel `p`, where `choice` is the palette colour picked
    /// for it (read only for a pixel that is quantized).
    pub open spec fn out_pixel(&self, p: int, choice: int) -> Seq<u8> {
        match self.kind(p) {
            PixelKind::Transparent => seq![0u8, 0u8, 0u8, 0u8],
            PixelKind::Frozen => self.prev_rgb(p).push(self.alpha(p)),
            PixelKind::Quantize => self.palette_rgb(choice).push(self.alpha(p)),
        }
    }

    /// Checks the shape of the inputs and bundles them.
    pub fn new(
        original: Vec<u8>,
        prev: Option<Vec<u8>>,
        palette: Vec<u8>,
        freeze_mask: Option<Vec<u8>>,
        width: usize,
        height: usize,
    ) -> (r: Result<Frame, DitherError>)
        ensures
            match shape_error(
                original@.len() as int,
                opt_len(prev),
                palette@.len() as int,
                opt_len(freeze_mask),
                width as int,
                height as int,
            ) {
                Some(e) => r == Err::<Frame, DitherError>(e),
                None => r is Ok && r->Ok_0.wf() && r->Ok_0.original == original
                    && r->Ok_0.prev == prev && r->Ok_0.palette == palette
                    && r->Ok_0.freeze_mask == freeze_mask && r->Ok_0.width == width
                    && r->Ok_0.height == height,
            },
    {
        let n = match width.checked_mul(height) {
            Some(n) => n,
            None => {
                return Err(DitherError::DimensionOverflow);
            },
        };
        let orig_len = original.len();
        let need = match n.checked_mul(4) {
            Some(b) => b,
            None => {
                assert(orig_len < 4 * n);
                return Err(DitherError::OriginalTooSmall);
            },
        };
        if original.len() < need {
            return Err(DitherError::OriginalTooSmall);
        }
        match &prev {
            Some(v) => {
                if v.len() < need {
                    return Err(DitherError::PrevTooSmall);
                }
            },
            None => {},
        }
        if palette.len() % 3 != 0 {
            return Err(DitherError::PaletteNotTriplets);
        }
        match &freeze_mask {
            Some(v) => {
                if v.len() < n {
                    return Err(DitherError::FreezeMaskTooSmall);
                }
            },
            None => {},
        }
        Ok(Frame { original, prev, palette, freeze_mask, width, height })
    }

    /// What the scan does at pixel `p`.
    pub fn pixel_kind(&self, p: usize) -> (r: PixelKind)
        requires
            self.wf(),
            p < self.pixels(),
        ensures
            r == self.kind(p as int),
    {
        let orig_len = self.original.len();
        assert(4 * p + 3 < orig_len);
        if self.original[4 * p + 3] == 0 {
            return PixelKind::Transparent;
        }
        let frozen = match &self.freeze_mask {
            Some(m) => m[p] != 0 && self.prev.is_some(),
            None => false,
        };
        if frozen {
            PixelKind::Frozen
        } else {
            PixelKind::Quantize
        }
    }
}

} // verus!
