//! Texture data that is sampled by pixel: a decoded raster of 8-bit RGB
//! texels, and the marker of the texture that shows surface coordinates.

use vstd::prelude::*;

verus! {

/// A decoded raster: `width` by `height` texels, row-major, three bytes each.
pub struct Raster {
    pub width: nat,
    pub height: nat,
    pub bytes: Seq<u8>,
}

impl Raster {
    /// Offset of the first byte of texel `(x, y)`.
    pub open spec fn texel_offset(self, x: int, y: int) -> int {
        3 * (x + y * self.width)
    }

    /// Channel `c` of texel `(x, y)`.
    pub open spec fn channel(self, x: int, y: int, c: int) -> u8 {
        self.bytes[self.texel_offset(x, y) + c]
    }
}

/// The texture that colours a surface by its own texture coordinates.
#[derive(Debug, Clone, Copy)]
pub struct UVTexture;

/// A texture backed by a decoded image.
#[derive(Debug)]
pub struct ImageTexture {
    image: Vec<u8>,
    width: u32,
    height: u32,
}

impl View for ImageTexture {
    type V = Raster;

    closed spec fn view(&self) -> Raster {
        Raster { width: self.width as nat, height: self.height as nat, bytes: self.image@ }
    }
}

/// Inside a raster of `width` by `height` texels, texel `(x, y)` lies
/// wholly within the first `3 * width * height` bytes.
proof fn lemma_texel_in_bounds(x: int, y: int, width: int, height: int)
    by (nonlinear_arith)
    requires
        0 <= x < width,
        0 <= y < height,
    ensures
        0 <= x + y * width < width * height,
        0 <= y * width,
{
}

impl Clone for ImageTexture {
    fn clone(&self) -> (copy: Self)
        ensures
            copy@ == self@,
    {
        proof {
            use_type_invariant(self);
        }
        let image: Vec<u8> = self.image.clone();
        assert(image@ =~= self.image@);
        ImageTexture { image, width: self.width, height: self.height }
    }
}

impl ImageTexture {
    /// The buffer holds three bytes for every texel.
    #[verifier::type_invariant]
    spec fn well_sized(self) -> bool {
        self.image@.len() == 3 * (self.width * self.height)
    }

    /// Wraps a decoded raster of `width` by `height` RGB texels.
    pub fn new(image: Vec<u8>, width: u32, height: u32) -> (texture: Self)
        requires
            image@.len() == 3 * (width * height),
        ensures
            texture@ == (Raster { width: width as nat, height: height as nat, bytes: image@ }),
    {
        ImageTexture { image, width, height }
    }

    /// Width of the raster in texels.
    pub fn width(&self) -> (width: u32)
        ensures
            width == self@.width,
    {
        self.width
    }

    /// Height of the raster in texels.
    pub fn height(&self) -> (height: u32)
        ensures
            height == self@.height,
    {
        self.height
    }

    /// The three channels of texel `(x, y)`, counted from the first row of
    /// the raster.
    pub fn texel(&self, x: usize, y: usize) -> (rgb: [u8; 3])
        requires
            x < self@.width,
            y < self@.height,
        ensures
            forall|c: int| 0 <= c < 3 ==> rgb[c] == self@.channel(x as int, y as int, c),
    {
        proof {
            use_type_invariant(self);
            lemma_texel_in_bounds(x as int, y as int, self.width as int, self.height as int);
        }
        assert(self.image.len() == 3 * (self.width * self.height));
        let idx: usize = (x + y * (self.width as usize)) * 3;
        [self.image[idx], self.image[idx + 1], self.image[idx + 2]]
    }
}

} // verus!
