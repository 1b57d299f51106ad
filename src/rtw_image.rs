use vstd::prelude::*;

verus! {

/// The colour reported for every texel when no image could be loaded.
pub const MISSING_COLOR: (i64, i64, i64) = (255, 0, 255);

/// `x` pulled into `[low, high)`: below the range gives `low`, at or above
/// it gives `high - 1`.
pub open spec fn clamp_spec(x: int, low: int, high: int) -> int {
    if x < low {
        low
    } else if x < high {
        x
    } else {
        high - 1
    }
}

/// The red, green and blue bytes of pixel `(x, y)` of a row-major RGB buffer
/// that is `w` pixels wide.
pub open spec fn texel(d: Seq<u8>, w: int, x: int, y: int) -> (i64, i64, i64) {
    let at = 3 * (y * w + x);
    (d[at] as i64, d[at + 1] as i64, d[at + 2] as i64)
}

/// A decoded texture image: its size in pixels and, when the file could be
/// read, its pixels as row-major RGB bytes (three per pixel).
#[derive(Clone, Debug)]
pub struct RtwImage {
    pub image_width: i64,
    pub image_height: i64,
    pub data: Option<Vec<u8>>,
}

impl RtwImage {
    /// Loaded pixels cover the whole image, which is at least one pixel.
    pub open spec fn wf(&self) -> bool {
        match self.data {
            Some(d) => {
                &&& 1 <= self.image_width
                &&& 1 <= self.image_height
                &&& d@.len() == 3 * (self.image_width * self.image_height)
            },
            None => true,
        }
    }

    /// An image with no pixels: every lookup yields the fallback colour.
    pub fn initial() -> (r: RtwImage)
        ensures
            r.wf(),
            r.image_width == 0,
            r.image_height == 0,
            r.data.is_none(),
    {
        RtwImage { image_width: 0, image_height: 0, data: None }
    }

    /// An image of `width` x `height` pixels from its row-major RGB bytes;
    /// `None` when the sizes do not describe a non-empty image of that many
    /// bytes.
    pub fn from_rgb8(width: u32, height: u32, rgb: Vec<u8>) -> (r: Option<RtwImage>)
        ensures
            r.is_some() <==> (1 <= width && 1 <= height && rgb@.len() == 3 * (width * height)),
            r matches Some(img) ==> {
                &&& img.wf()
                &&& img.image_width == width
                &&& img.image_height == height
                &&& img.data == Some(rgb)
            },
    {
        if width < 1 || height < 1 {
            return None;
        }
        let len = rgb.len() as u64;
        assert(width as u64 * height as u64 <= 0xffff_ffff_ffff_ffffu64) by (nonlinear_arith)
            requires
                width <= 0xffff_ffffu32,
                height <= 0xffff_ffffu32,
        ;
        let pixels: u64 = width as u64 * height as u64;
        if pixels > 0xffff_ffff_ffff_ffffu64 / 3 || pixels * 3 != len {
            return None;
        }
        Some(RtwImage { image_width: width as i64, image_height: height as i64, data: Some(rgb) })
    }

    /// `x` pulled into `[low, high)`.
    pub fn clamp(x: i64, low: i64, high: i64) -> (r: i64)
        requires
            high > i64::MIN,
        ensures
            r == clamp_spec(x as int, low as int, high as int),
    {
        if x < low {
            return low;
        }
        if x < high {
            return x;
        }
        high - 1
    }

    pub fn width(&self) -> (r: i64)
        ensures
            r == self.image_width,
    {
        self.image_width
    }

    pub fn height(&self) -> (r: i64)
        ensures
            r == self.image_height,
    {
        self.image_height
    }

    /// The colour bytes of pixel `(x, y)`, with coordinates outside the image
    /// clamped to its nearest edge; the fallback magenta when nothing was
    /// loaded.
    pub fn pixel_data(&self, x: i64, y: i64) -> (r: (i64, i64, i64))
        requires
            self.wf(),
        ensures
            r == match self.data {
                Some(d) => texel(
                    d@,
                    self.image_width as int,
                    clamp_spec(x as int, 0, self.image_width as int),
                    clamp_spec(y as int, 0, self.image_height as int),
                ),
                None => MISSING_COLOR,
            },
    {
        match &self.data {
            Some(d) => {
                let w = self.image_width;
                let h = self.image_height;
                let cx = Self::clamp(x, 0, w);
                let cy = Self::clamp(y, 0, h);
                let n = d.len();
                proof {
                    lemma_pixel_in_buffer(cx as int, cy as int, w as int, h as int);
                }
                assert(n == 3 * (w * h));
                let at: usize = 3 * (cy as usize * w as usize + cx as usize);
                (d[at] as i64, d[at + 1] as i64, d[at + 2] as i64)
            },
            None => MISSING_COLOR,
        }
    }
}

proof fn lemma_pixel_in_buffer(x: int, y: int, w: int, h: int)
    requires
        0 <= x < w,
        0 <= y < h,
    ensures
        0 <= y * w + x < w * h,
        3 * (y * w + x) + 2 < 3 * (w * h),
        w <= w * h,
        h <= w * h,
        y * w <= w * h,
{
    assert(w <= w * h && h <= w * h && y * w <= w * h) by (nonlinear_arith)
        requires
            0 <= x < w,
            0 <= y < h,
    ;
    assert(y * w + x < w * h) by (nonlinear_arith)
        requires
            0 <= x < w,
            0 <= y < h,
    ;
    assert(0 <= y * w) by (nonlinear_arith)
        requires
            0 <= x < w,
            0 <= y,
    ;
}

} // verus!
