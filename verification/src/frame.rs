//! Raster types the detector works on: RGB frames and grayscale masks, each a
//! shape together with exactly as many bytes as the shape calls for.

use vstd::prelude::*;

verus! {

/// What a raster holds, as contracts see it: its shape and its bytes in
/// row-major order.
#[verifier::ext_equal]
pub struct RasterView {
    pub width: nat,
    pub height: nat,
    pub data: Seq<u8>,
}

impl RasterView {
    /// An RGB raster holds three bytes for each of its `width * height` pixels.
    pub open spec fn is_rgb(self) -> bool {
        self.data.len() == 3 * (self.width * self.height)
    }

    /// A grayscale raster holds one byte for each of its `width * height` pixels.
    pub open spec fn is_gray(self) -> bool {
        self.data.len() == self.width * self.height
    }
}

/// `3 * width * height`, computed without overflow.
fn rgb_byte_count(width: u32, height: u32) -> (n: u128)
    ensures
        n == 3 * (width as nat * height as nat),
{
    let w: u128 = width as u128;
    let h: u128 = height as u128;
    assert(w * h <= 0xffff_ffff * 0xffff_ffff) by (nonlinear_arith)
        requires
            w <= 0xffff_ffff,
            h <= 0xffff_ffff,
    ;
    3 * (w * h)
}

/// `width * height`, computed without overflow.
fn gray_byte_count(width: u32, height: u32) -> (n: u128)
    ensures
        n == width as nat * height as nat,
{
    let w: u128 = width as u128;
    let h: u128 = height as u128;
    assert(w * h <= 0xffff_ffff * 0xffff_ffff) by (nonlinear_arith)
        requires
            w <= 0xffff_ffff,
            h <= 0xffff_ffff,
    ;
    w * h
}

/// An immutable RGB image: `width * height` pixels of three bytes each, in
/// row-major order.
pub struct RgbFrame {
    width: u32,
    height: u32,
    data: Vec<u8>,
}

impl View for RgbFrame {
    type V = RasterView;

    closed spec fn view(&self) -> RasterView {
        RasterView { width: self.width as nat, height: self.height as nat, data: self.data@ }
    }
}

impl RgbFrame {
    /// Every frame that exists holds exactly the bytes its shape calls for.
    #[verifier::type_invariant]
    pub closed spec fn inv(self) -> bool {
        self@.is_rgb()
    }

    /// What holds of every frame that exists, said of its view.
    pub proof fn lemma_inv_is_rgb(self)
        requires
            self.inv(),
        ensures
            self@.is_rgb(),
            self@.width <= u32::MAX,
            self@.height <= u32::MAX,
    {
    }

    /// Builds a frame from its shape and bytes; `None` when the byte count
    /// does not match the shape.
    pub fn from_raw(width: u32, height: u32, data: Vec<u8>) -> (r: Option<RgbFrame>)
        ensures
            r is Some <==> data@.len() == 3 * (width as nat * height as nat),
            r matches Some(f) ==> f@ == (RasterView {
                width: width as nat,
                height: height as nat,
                data: data@,
            }),
    {
        if data.len() as u128 == rgb_byte_count(width, height) {
            Some(RgbFrame { width, height, data })
        } else {
            None
        }
    }

    pub fn width(&self) -> (w: u32)
        ensures
            w == self@.width,
            self@.is_rgb(),
    {
        proof {
            use_type_invariant(self);
        }
        self.width
    }

    pub fn height(&self) -> (h: u32)
        ensures
            h == self@.height,
            self@.is_rgb(),
    {
        proof {
            use_type_invariant(self);
        }
        self.height
    }

    /// The bytes of the frame, three per pixel.
    pub fn as_raw(&self) -> (bytes: &Vec<u8>)
        ensures
            bytes@ == self@.data,
            self@.is_rgb(),
    {
        proof {
            use_type_invariant(self);
        }
        &self.data
    }

    /// Gives the bytes back and drops the shape.
    pub fn into_raw(self) -> (bytes: Vec<u8>)
        ensures
            bytes@ == self@.data,
            self@.is_rgb(),
    {
        proof {
            use_type_invariant(&self);
        }
        self.data
    }
}

impl Clone for RgbFrame {
    fn clone(&self) -> (copy: Self)
        ensures
            copy@ == self@,
    {
        proof {
            use_type_invariant(self);
        }
        let data = self.data.clone();
        RgbFrame { width: self.width, height: self.height, data }
    }
}

/// A grayscale image of `width * height` bytes. As a mask, a zero byte lets
/// the pixel at its position take part in a comparison and any other byte
/// keeps it out.
pub struct GrayMask {
    width: u32,
    height: u32,
    data: Vec<u8>,
}

impl View for GrayMask {
    type V = RasterView;

    closed spec fn view(&self) -> RasterView {
        RasterView { width: self.width as nat, height: self.height as nat, data: self.data@ }
    }
}

impl GrayMask {
    #[verifier::type_invariant]
    pub closed spec fn inv(self) -> bool {
        self@.is_gray()
    }

    /// Builds a mask from its shape and bytes; `None` when the byte count
    /// does not match the shape.
    pub fn from_raw(width: u32, height: u32, data: Vec<u8>) -> (r: Option<GrayMask>)
        ensures
            r is Some <==> data@.len() == width as nat * height as nat,
            r matches Some(m) ==> m@ == (RasterView {
                width: width as nat,
                height: height as nat,
                data: data@,
            }),
    {
        if data.len() as u128 == gray_byte_count(width, height) {
            Some(GrayMask { width, height, data })
        } else {
            None
        }
    }

    pub fn width(&self) -> (w: u32)
        ensures
            w == self@.width,
            self@.is_gray(),
    {
        proof {
            use_type_invariant(self);
        }
        self.width
    }

    pub fn height(&self) -> (h: u32)
        ensures
            h == self@.height,
            self@.is_gray(),
    {
        proof {
            use_type_invariant(self);
        }
        self.height
    }

    /// The bytes of the mask, one per pixel.
    pub fn as_raw(&self) -> (bytes: &Vec<u8>)
        ensures
            bytes@ == self@.data,
            self@.is_gray(),
    {
        proof {
            use_type_invariant(self);
        }
        &self.data
    }
}

impl Clone for GrayMask {
    fn clone(&self) -> (copy: Self)
        ensures
            copy@ == self@,
    {
        proof {
            use_type_invariant(self);
        }
        let data = self.data.clone();
        GrayMask { width: self.width, height: self.height, data }
    }
}

} // verus!
