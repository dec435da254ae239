use vstd::prelude::*;
use crate::perlin::Perlin;
use crate::scalar::Scalar;
use crate::vec3::Color;

verus! {

/// One colour everywhere.
#[derive(Clone, Copy, Debug, PartialEq, Eq, Structural)]
pub struct SolidColor {
    pub color_value: Color,
}

impl SolidColor {
    /// White.
    pub fn new1() -> (t: Self)
        ensures
            t.color_value == (Color { x: crate::scalar::ONE, y: crate::scalar::ONE, z: crate::scalar::ONE }),
    {
        Self { color_value: Color::ones() }
    }

    pub fn new(c: Color) -> (t: Self)
        ensures
            t.color_value == c,
    {
        Self { color_value: c }
    }

    pub fn new2(red: Scalar, green: Scalar, blue: Scalar) -> (t: Self)
        ensures
            t.color_value == (Color { x: red, y: green, z: blue }),
    {
        Self { color_value: Color::new(red, green, blue) }
    }

    /// The colour, whatever the place.
    pub fn value(&self) -> (c: Color)
        ensures
            c == self.color_value,
    {
        self.color_value
    }
}

/// A pattern of two colours that alternate with the sign of a product
/// of sines over the place.
#[derive(Clone, Copy, Debug, PartialEq, Eq, Structural)]
pub struct TestTexture {
    pub color1: Color,
    pub color2: Color,
}

impl TestTexture {
    /// The pattern of white and half white.
    pub fn new1() -> (t: Self)
        ensures
            t.color1 == (Color { x: crate::scalar::ONE, y: crate::scalar::ONE, z: crate::scalar::ONE }),
            t.color2 == (Color {
                x: crate::scalar::HALF,
                y: crate::scalar::HALF,
                z: crate::scalar::HALF,
            }),
    {
        Self {
            color1: Color::ones(),
            color2: Color::new(crate::scalar::HALF, crate::scalar::HALF, crate::scalar::HALF),
        }
    }

    /// The pattern of a colour and its darker companion.
    pub fn new(color1: Color, color2: Color) -> (t: Self)
        ensures
            t == (TestTexture { color1, color2 }),
    {
        Self { color1, color2 }
    }

    /// The colour where the product of sines is `sines`: the first
    /// colour where it is negative, the second elsewhere.
    pub fn value(&self, sines: Scalar) -> (c: Color)
        ensures
            c == if sines < 0 {
                self.color1
            } else {
                self.color2
            },
    {
        if sines < crate::scalar::ZERO {
            self.color1
        } else {
            self.color2
        }
    }
}

/// A raster of pixels of three bytes each, row after row from the top.
#[derive(Clone, Debug)]
pub struct ImageTexture {
    width: u32,
    height: u32,
    data: Vec<u8>,
}

/// The place of the first byte of pixel `(i, j)` in a raster `width` wide.
pub open spec fn pixel_offset(width: int, i: int, j: int) -> int {
    (j * width + i) * 3
}

/// The bytes make a raster of the given size: no side is zero, and there
/// are three bytes for each pixel.
pub open spec fn is_raster(width: u32, height: u32, data: Seq<u8>) -> bool {
    width > 0 && height > 0 && data.len() == width * height * 3
}

/// `x` held below `limit`.
pub open spec fn held_below(x: u32, limit: u32) -> u32 {
    if x >= limit {
        (limit - 1) as u32
    } else {
        x
    }
}

impl ImageTexture {
    pub closed spec fn spec_width(&self) -> u32 {
        self.width
    }

    pub closed spec fn spec_height(&self) -> u32 {
        self.height
    }

    /// The bytes of the raster.
    pub closed spec fn bytes(&self) -> Seq<u8> {
        self.data@
    }

    /// The raster is not empty and holds three bytes for each pixel.
    pub closed spec fn well_formed(&self) -> bool {
        &&& self.width > 0
        &&& self.height > 0
        &&& self.data@.len() == self.width * self.height * 3
    }

    /// The raster of the given size over the given bytes. `None` where a
    /// side is zero or the bytes are not three for each pixel.
    pub fn new(width: u32, height: u32, data: Vec<u8>) -> (t: Option<Self>)
        ensures
            t is Some <==> is_raster(width, height, data@),
            t matches Some(img) ==> img.well_formed() && img.spec_width() == width
                && img.spec_height() == height && img.bytes() == data@,
    {
        if width == 0 || height == 0 {
            return None;
        }
        assert(width * height <= 0xFFFF_FFFF * 0xFFFF_FFFF) by (nonlinear_arith)
            requires
                0 <= width <= 0xFFFF_FFFF,
                0 <= height <= 0xFFFF_FFFF,
        ;
        let pixels: u64 = width as u64 * height as u64;
        let wanted: u128 = pixels as u128 * 3;
        if data.len() as u128 != wanted {
            return None;
        }
        Some(Self { width, height, data })
    }

    #[verifier::when_used_as_spec(spec_width)]
    pub fn width(&self) -> (w: u32)
        ensures
            w == self.spec_width(),
    {
        self.width
    }

    #[verifier::when_used_as_spec(spec_height)]
    pub fn height(&self) -> (h: u32)
        ensures
            h == self.spec_height(),
    {
        self.height
    }

    /// The three bytes of the pixel in column `i` of row `j`; a column or
    /// row beyond the raster reads the last one.
    pub fn pixel(&self, i: u32, j: u32) -> (rgb: [u8; 3])
        requires
            self.well_formed(),
        ensures
            ({
                let at = pixel_offset(
                    self.spec_width() as int,
                    held_below(i, self.spec_width()) as int,
                    held_below(j, self.spec_height()) as int,
                );
                &&& 0 <= at
                &&& at + 2 < self.bytes().len()
                &&& rgb@ == self.bytes().subrange(at, at + 3)
            }),
    {
        let i = if i >= self.width {
            self.width - 1
        } else {
            i
        };
        let j = if j >= self.height {
            self.height - 1
        } else {
            j
        };
        let w = self.width as usize;
        let len = self.data.len();
        proof {
            let (gi, gj, gw, gh) = (i as int, j as int, self.width as int, self.height as int);
            assert((gj * gw + gi) * 3 + 3 <= gw * gh * 3 && 0 <= gj * gw <= gj * gw + gi) by (nonlinear_arith)
                requires
                    0 <= gi < gw,
                    0 <= gj < gh,
            ;
            assert(len == gw * gh * 3);
        }
        let at = (j as usize * w + i as usize) * 3;
        let rgb = [self.data[at], self.data[at + 1], self.data[at + 2]];
        assert(rgb@ =~= self.data@.subrange(at as int, at + 3));
        rgb
    }
}

/// Noise over the lattice, stretched by a scale.
#[derive(Clone, Debug)]
pub struct NoiseTexture {
    pub noise: Perlin,
    pub scale: Scalar,
}

impl NoiseTexture {
    /// The noise texture of the given scale over the given lattice
    /// values. `None` unless there are 256 values.
    pub fn new(scale: Scalar, ranfloat: Vec<Scalar>) -> (t: Option<Self>)
        ensures
            t is Some <==> ranfloat@.len() == 256,
            t matches Some(n) ==> n.scale == scale && n.noise.well_formed() && n.noise.ranfloat@
                == ranfloat@,
    {
        match Perlin::new(ranfloat) {
            Some(noise) => Some(Self { noise, scale }),
            None => None,
        }
    }
}

/// What gives a surface its colour at a place.
#[derive(Clone, Debug)]
pub enum Surface {
    SolidColor(SolidColor),
    TestTexture(TestTexture),
    ImageTexture(ImageTexture),
    NoiseTexture(NoiseTexture),
}

impl Surface {
    pub fn new_solid_color(c: Color) -> (s: Self)
        ensures
            s == Surface::SolidColor(SolidColor { color_value: c }),
    {
        Surface::SolidColor(SolidColor::new(c))
    }

    pub fn new_test_texture(color1: Color, color2: Color) -> (s: Self)
        ensures
            s == Surface::TestTexture(TestTexture { color1, color2 }),
    {
        Surface::TestTexture(TestTexture::new(color1, color2))
    }

    /// The raster texture over the given bytes, where they make a raster.
    pub fn new_image_texture(width: u32, height: u32, data: Vec<u8>) -> (s: Option<Self>)
        ensures
            match s {
                Some(Surface::ImageTexture(img)) => is_raster(width, height, data@) && img.well_formed()
                    && img.spec_width() == width && img.spec_height() == height && img.bytes()
                    == data@,
                Some(_) => false,
                None => !is_raster(width, height, data@),
            },
    {
        match ImageTexture::new(width, height, data) {
            Some(img) => Some(Surface::ImageTexture(img)),
            None => None,
        }
    }

    /// The noise texture over the given lattice values, where there are
    /// 256 of them.
    pub fn new_noise_texture(scale: Scalar, ranfloat: Vec<Scalar>) -> (s: Option<Self>)
        ensures
            match s {
                Some(Surface::NoiseTexture(n)) => ranfloat@.len() == 256 && n.scale == scale
                    && n.noise.well_formed() && n.noise.ranfloat@ == ranfloat@,
                Some(_) => false,
                None => ranfloat@.len() != 256,
            },
    {
        match NoiseTexture::new(scale, ranfloat) {
            Some(noise) => Some(Surface::NoiseTexture(noise)),
            None => None,
        }
    }
}

} // verus!
