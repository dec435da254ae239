use vstd::prelude::*;
use crate::pdf::{cosine_density, CosinePDF, ZeroPDF, PDF};
use crate::onb::ONB;
use crate::ray::Ray;
use crate::scalar::{min_of, Scalar, ONE, ZERO};
use crate::texture::{is_raster, Surface};
use crate::vec3::{Color, Vec3};

verus! {

/// The regime in which a surface sends a ray on.
#[derive(Clone, Copy, Debug, PartialEq, Eq, Structural)]
pub enum MaterialType {
    Diffuse,
    Specular,
}

/// A matte surface.
#[derive(Clone, Debug)]
pub struct Lambertian {
    pub albedo: Surface,
}

/// A mirror, more or less blurred.
#[derive(Clone, Debug)]
pub struct Metal {
    pub albedo: Surface,
    pub fuzz: Scalar,
}

/// A light.
#[derive(Clone, Debug)]
pub struct Diffuse {
    pub shine: Surface,
}

/// A clear body that bends light.
#[derive(Clone, Copy, Debug, PartialEq, Eq, Structural)]
pub struct Dielectric {
    pub ref_idx: Scalar,
}

/// What a surface is made of.
#[derive(Clone, Debug)]
pub enum Material {
    Lambertian(Lambertian),
    Metal(Metal),
    Dielectric(Dielectric),
    Diffuse(Diffuse),
}

/// What a surface makes of a ray that meets it.
#[derive(Debug)]
pub struct ScatterRecord<'a> {
    pub material_type: MaterialType,
    pub specular_ray: Ray,
    pub attenuation: Color,
    pub pdf_ptr: PDF<'a>,
}

impl Lambertian {
    pub fn new(albedo: Color) -> (m: Self)
        ensures
            m.albedo == Surface::SolidColor(crate::texture::SolidColor { color_value: albedo }),
    {
        Self { albedo: Surface::new_solid_color(albedo) }
    }

    /// A matte surface always sends the ray on, in a direction drawn
    /// around the normal, weakened by the colour of the surface there.
    pub fn scatter(&self, attenuation: Color, uvw: ONB) -> (srec: ScatterRecord<'static>)
        ensures
            srec.material_type == MaterialType::Diffuse,
            srec.specular_ray == (Ray {
                origin: Vec3 { x: 0, y: 0, z: 0 },
                direction: Vec3 { x: 0, y: 0, z: 0 },
                time: crate::ray::INIT_TIME,
            }),
            srec.attenuation == attenuation,
            srec.pdf_ptr == PDF::CosinePDF(CosinePDF { uvw }),
    {
        ScatterRecord {
            material_type: MaterialType::Diffuse,
            specular_ray: Ray::init(),
            attenuation,
            pdf_ptr: CosinePDF::new(uvw),
        }
    }

    /// The density with which a matte surface sends a ray on in a
    /// direction whose cosine to the normal is `cosine`: that cosine over
    /// pi, and nothing below the horizon.
    pub fn scatter_pdf(&self, cosine: Scalar, cosine_over_pi: Scalar) -> (density: Scalar)
        ensures
            density == if cosine < 0 {
                0
            } else {
                cosine_over_pi
            },
    {
        if cosine < ZERO {
            ZERO
        } else {
            cosine_over_pi
        }
    }
}

/// A matte surface sends rays on with the density of the cosine
/// distribution around its normal: the two agree in every direction,
/// the quotient of a zero cosine being zero.
pub proof fn lemma_matte_density_is_cosine_density(cosine: Scalar, cosine_over_pi: Scalar)
    requires
        cosine == 0 ==> cosine_over_pi == 0,
    ensures
        (if cosine < 0 {
            0
        } else {
            cosine_over_pi
        }) == cosine_density(cosine, cosine_over_pi),
{
}

impl Metal {
    /// A mirror of the given texture; a blur above one is held to one.
    pub fn new(albedo: Surface, fuzz: Scalar) -> (m: Self)
        ensures
            m.albedo == albedo,
            m.fuzz == min_of(fuzz, ONE),
    {
        Self {
            albedo,
            fuzz: if fuzz < ONE {
                fuzz
            } else {
                ONE
            },
        }
    }

    /// A mirror sends the ray on along `specular_ray`, its blurred
    /// reflection, unless that points into the surface: `facing` is the
    /// dot product of its direction with the normal, and must be above
    /// zero.
    pub fn scatter(&self, specular_ray: Ray, attenuation: Color, facing: Scalar) -> (srec: Option<
        ScatterRecord<'static>,
    >)
        ensures
            srec is Some <==> facing > 0,
            srec matches Some(s) ==> s.material_type == MaterialType::Specular && s.specular_ray
                == specular_ray && s.attenuation == attenuation && s.pdf_ptr == PDF::ZeroPDF(
                ZeroPDF {  },
            ),
    {
        if facing > ZERO {
            Some(
                ScatterRecord {
                    material_type: MaterialType::Specular,
                    specular_ray,
                    attenuation,
                    pdf_ptr: ZeroPDF::new(),
                },
            )
        } else {
            None
        }
    }
}

/// Whether a clear body mirrors the ray: always where the sine of the
/// bent ray would be above one, and else where the draw falls below
/// the reflectance.
pub open spec fn mirrors(bent_sine: Scalar, draw: Scalar, reflectance: Scalar) -> bool {
    bent_sine > ONE || draw < reflectance
}

impl Dielectric {
    pub fn new(ref_idx: Scalar) -> (m: Self)
        ensures
            m.ref_idx == ref_idx,
    {
        Self { ref_idx }
    }

    /// The ratio of the indices on the two sides of the surface: the
    /// inverse of the body's index for a ray that enters, the index
    /// itself for one that leaves.
    pub fn index_ratio(&self, front_face: bool, inverse: Scalar) -> (ratio: Scalar)
        ensures
            ratio == if front_face {
                inverse
            } else {
                self.ref_idx
            },
    {
        if front_face {
            inverse
        } else {
            self.ref_idx
        }
    }

    /// Decides between mirroring and bending the ray. `bent_sine` is the
    /// ratio of indices times the sine of the angle of incidence, `draw`
    /// a draw from the unit interval and `reflectance` the share of
    /// light that the surface mirrors at that angle.
    pub fn reflects(bent_sine: Scalar, draw: Scalar, reflectance: Scalar) -> (mirror: bool)
        ensures
            mirror == mirrors(bent_sine, draw, reflectance),
    {
        bent_sine > ONE || draw < reflectance
    }

    /// A clear body always sends the ray on, unweakened, along the ray
    /// that was mirrored or bent.
    pub fn scatter(&self, specular_ray: Ray) -> (srec: ScatterRecord<'static>)
        ensures
            srec.material_type == MaterialType::Specular,
            srec.specular_ray == specular_ray,
            srec.attenuation == (Color { x: ONE, y: ONE, z: ONE }),
            srec.pdf_ptr == PDF::ZeroPDF(ZeroPDF {  }),
    {
        ScatterRecord {
            material_type: MaterialType::Specular,
            specular_ray,
            attenuation: Color::ones(),
            pdf_ptr: ZeroPDF::new(),
        }
    }
}

/// Beyond the angle of total reflection a clear body mirrors the ray,
/// whatever is drawn and whatever its reflectance.
pub proof fn lemma_total_reflection(bent_sine: Scalar, draw: Scalar, reflectance: Scalar)
    requires
        bent_sine > ONE,
    ensures
        mirrors(bent_sine, draw, reflectance),
{
}

impl Diffuse {
    pub fn new(shine: Surface) -> (m: Self)
        ensures
            m.shine == shine,
    {
        Self { shine }
    }

    pub fn new1(col: Color) -> (m: Self)
        ensures
            m.shine == Surface::SolidColor(crate::texture::SolidColor { color_value: col }),
    {
        Self { shine: Surface::new_solid_color(col) }
    }

    /// What a light gives off: its colour there, `shine`, towards its
    /// front, and nothing towards its back.
    pub fn emit(&self, front_face: bool, shine: Color) -> (emitted: Color)
        ensures
            emitted == if front_face {
                shine
            } else {
                Color { x: 0, y: 0, z: 0 }
            },
    {
        if front_face {
            shine
        } else {
            Color::zero()
        }
    }
}

impl Material {
    /// The regime in which the material sends rays on, if it ever does:
    /// a light never does.
    pub open spec fn regime(&self) -> Option<MaterialType> {
        match self {
            Material::Lambertian(_) => Some(MaterialType::Diffuse),
            Material::Metal(_) => Some(MaterialType::Specular),
            Material::Dielectric(_) => Some(MaterialType::Specular),
            Material::Diffuse(_) => None,
        }
    }

    /// Whether the material gives off light of its own.
    pub open spec fn shines(&self) -> bool {
        self is Diffuse
    }

    pub fn new_lambertian(albedo: Color) -> (m: Self)
        ensures
            m matches Material::Lambertian(l) && l.albedo == Surface::SolidColor(
                crate::texture::SolidColor { color_value: albedo },
            ),
    {
        Material::Lambertian(Lambertian::new(albedo))
    }

    /// A matte surface coloured by noise over the given lattice values,
    /// where there are 256 of them.
    pub fn new_noise_lamb(scale: Scalar, ranfloat: Vec<Scalar>) -> (m: Option<Self>)
        ensures
            match m {
                Some(Material::Lambertian(l)) => l.albedo matches Surface::NoiseTexture(n)
                    && ranfloat@.len() == 256 && n.scale == scale && n.noise.well_formed()
                    && n.noise.ranfloat@ == ranfloat@,
                Some(_) => false,
                None => ranfloat@.len() != 256,
            },
    {
        match Surface::new_noise_texture(scale, ranfloat) {
            Some(albedo) => Some(Material::Lambertian(Lambertian { albedo })),
            None => None,
        }
    }

    /// A matte surface coloured by a raster, where the bytes make one.
    pub fn new_image_tex(width: u32, height: u32, data: Vec<u8>) -> (m: Option<Self>)
        ensures
            match m {
                Some(Material::Lambertian(l)) => l.albedo matches Surface::ImageTexture(img)
                    && is_raster(width, height, data@) && img.well_formed() && img.spec_width()
                    == width && img.spec_height() == height && img.bytes() == data@,
                Some(_) => false,
                None => !is_raster(width, height, data@),
            },
    {
        match Surface::new_image_texture(width, height, data) {
            Some(albedo) => Some(Material::Lambertian(Lambertian { albedo })),
            None => None,
        }
    }

    /// A mirror with the two-colour pattern of `albedo` and its darker
    /// companion `shade`.
    pub fn new_metal(albedo: Color, shade: Color, fuzz: Scalar) -> (m: Self)
        ensures
            m matches Material::Metal(metal) && metal.fuzz == min_of(fuzz, ONE) && metal.albedo
                == Surface::TestTexture(crate::texture::TestTexture { color1: albedo, color2: shade }),
    {
        Material::Metal(Metal::new(Surface::new_test_texture(albedo, shade), fuzz))
    }

    pub fn new_dielectric(ref_idx: Scalar) -> (m: Self)
        ensures
            m == Material::Dielectric(Dielectric { ref_idx }),
    {
        Material::Dielectric(Dielectric::new(ref_idx))
    }

    pub fn new_diffuse(c: Vec3) -> (m: Self)
        ensures
            m matches Material::Diffuse(d) && d.shine == Surface::SolidColor(
                crate::texture::SolidColor { color_value: c },
            ),
    {
        Material::Diffuse(Diffuse::new1(c))
    }

    /// The regime in which the material sends rays on; `None` for a
    /// light, which sends none on.
    pub fn material_type(&self) -> (regime: Option<MaterialType>)
        ensures
            regime == self.regime(),
    {
        match self {
            Material::Lambertian(_) => Some(MaterialType::Diffuse),
            Material::Metal(_) => Some(MaterialType::Specular),
            Material::Dielectric(_) => Some(MaterialType::Specular),
            Material::Diffuse(_) => None,
        }
    }

    /// The density with which the material itself sends a ray on in a
    /// direction whose cosine to the normal is `cosine`: that of a
    /// matte surface, and nothing for any other.
    pub fn scatter_pdf(&self, cosine: Scalar, cosine_over_pi: Scalar) -> (density: Scalar)
        ensures
            density == if self is Lambertian && cosine >= 0 {
                cosine_over_pi
            } else {
                0
            },
    {
        match self {
            Material::Lambertian(m) => m.scatter_pdf(cosine, cosine_over_pi),
            _ => ZERO,
        }
    }

    /// What the material gives off at a hit: a light its colour there,
    /// `shine`, towards its front; anything else, and a light's back,
    /// nothing.
    pub fn emit(&self, front_face: bool, shine: Color) -> (emitted: Color)
        ensures
            emitted == if self.shines() && front_face {
                shine
            } else {
                Color { x: 0, y: 0, z: 0 }
            },
    {
        match self {
            Material::Diffuse(m) => m.emit(front_face, shine),
            _ => Color::zero(),
        }
    }
}

} // verus!
