//! The integrator: the colour that a ray brings back from the scene.
use vstd::prelude::*;
use crate::hittable::HitRecord;
use crate::hittable_list::{answers_of, HittableList};
use crate::ray::Ray;
use crate::scalar::{Scalar, ONE_BITS};
use crate::utilities::{clamp, clamp_spec};
use crate::vec3::Vec3;

verus! {

pub type Color = Vec3;

/// The pattern of 0.001: hits closer to a ray's start than this do not
/// count, so that a scattered ray does not hit the surface it leaves.
pub const NEAREST_BITS: u64 = 0x3F50_624D_D2F1_A9FC;

pub open spec fn black_spec() -> Color {
    Vec3 { x: Scalar { bits: 0 }, y: Scalar { bits: 0 }, z: Scalar { bits: 0 } }
}

pub open spec fn white_spec() -> Color {
    Vec3 { x: Scalar { bits: ONE_BITS }, y: Scalar { bits: ONE_BITS }, z: Scalar { bits: ONE_BITS } }
}

/// No light: zero in every channel.
#[verifier::when_used_as_spec(black_spec)]
pub fn black() -> (c: Color)
    ensures
        c == black_spec(),
{
    Vec3::splat(Scalar::zero())
}

/// Full light: one in every channel.
#[verifier::when_used_as_spec(white_spec)]
pub fn white() -> (c: Color)
    ensures
        c == white_spec(),
{
    Vec3::splat(Scalar::one())
}

/// The pattern of 0.999, the brightest that a channel is written as.
pub const BRIGHTEST_BITS: u64 = 0x3FEF_F7CE_D916_872B;

/// The text that `format!("{} {} {}\n", r, g, b)` makes of three channel
/// values: the three numbers in decimal, a blank between them and a line
/// feed after them.
pub uninterp spec fn pixel_line(r: u32, g: u32, b: u32) -> Seq<char>;

/// Formats one pixel with `format!`: the result is `pixel_line` of the
/// three channel values.
#[verifier::external_body]
fn format_pixel(r: u32, g: u32, b: u32) -> (line: String)
    ensures
        line@ == pixel_line(r, g, b),
{
    format!("{} {} {}\n", r, g, b)
}

/// What a channel is written as: the toned value held to `[0, 0.999]`.
pub open spec fn displayed(toned: Scalar) -> Scalar {
    clamp_spec(toned, Scalar::zero_spec(), Scalar { bits: BRIGHTEST_BITS })
}

/// The line of a pixel in the image: for each channel, the sum over the
/// samples is toned by `tone`, held to `[0, 0.999]`, and turned into a
/// whole number by `quantize`. `tone(sum, samples)` is the caller's
/// arithmetic for the square root of the mean, `quantize(x)` for 256 times
/// `x` without its fraction.
pub fn write_color<G: Fn(Scalar, usize) -> Scalar, Q: Fn(Scalar) -> u32>(
    pixel_color: Color,
    sample_per_pixel: usize,
    tone: &G,
    quantize: &Q,
) -> (line: String)
    requires
        forall|x: Scalar| #[trigger] tone.requires((x, sample_per_pixel)),
        forall|x: Scalar| #[trigger] quantize.requires((x,)),
    ensures
        exists|r: Scalar, g: Scalar, b: Scalar, red: u32, green: u32, blue: u32|
            #![trigger tone.ensures((pixel_color.x, sample_per_pixel), r), tone.ensures((pixel_color.y, sample_per_pixel), g), tone.ensures((pixel_color.z, sample_per_pixel), b), pixel_line(red, green, blue)]
            tone.ensures((pixel_color.x, sample_per_pixel), r) && tone.ensures(
                (pixel_color.y, sample_per_pixel),
                g,
            ) && tone.ensures((pixel_color.z, sample_per_pixel), b) && quantize.ensures(
                (displayed(r),),
                red,
            ) && quantize.ensures((displayed(g),), green) && quantize.ensures(
                (displayed(b),),
                blue,
            ) && line@ == pixel_line(red, green, blue),
{
    let r = tone(pixel_color.x, sample_per_pixel);
    let g = tone(pixel_color.y, sample_per_pixel);
    let b = tone(pixel_color.z, sample_per_pixel);
    let brightest = Scalar::from_bits(BRIGHTEST_BITS);
    let red = quantize(clamp(r, Scalar::zero(), brightest));
    let green = quantize(clamp(g, Scalar::zero(), brightest));
    let blue = quantize(clamp(b, Scalar::zero(), brightest));
    let line = format_pixel(red, green, blue);
    assert(quantize.ensures((displayed(r),), red));
    assert(line@ == pixel_line(red, green, blue));
    line
}

/// What the caller's hit test `probe` may return: the result `h` for an
/// object and a ray on the interval `[lo, hi]`.
pub open spec fn hits_of<T, M, P: Fn(&T, &Ray, Scalar, Scalar) -> Option<HitRecord<M>>>(
    probe: P,
) -> spec_fn(T, Ray, Scalar, Scalar, Option<HitRecord<M>>) -> bool {
    |o: T, r: Ray, lo: Scalar, hi: Scalar, h: Option<HitRecord<M>>|
        probe.ensures((&o, &r, lo, hi), h)
}

/// What the caller's `emitted` may return: the light `glow` that the
/// material of a hit gives off.
pub open spec fn glows_of<M, E: Fn(&HitRecord<M>) -> Color>(emitted: E) -> spec_fn(
    HitRecord<M>,
    Color,
) -> bool {
    |rec: HitRecord<M>, glow: Color| emitted.ensures((&rec,), glow)
}

/// What the caller's `scatter` may return: for a ray and its hit, the
/// attenuation and the scattered ray, or nothing.
pub open spec fn scatters_of<M, S: Fn(&Ray, &HitRecord<M>) -> Option<(Color, Ray)>>(
    scatter: S,
) -> spec_fn(Ray, HitRecord<M>, Option<(Color, Ray)>) -> bool {
    |r: Ray, rec: HitRecord<M>, bounce: Option<(Color, Ray)>| scatter.ensures((&r, &rec), bounce)
}

/// What the caller's `blend` may return for a glow, an attenuation and an
/// incoming colour.
pub open spec fn blends_of<C: Fn(Color, Color, Color) -> Color>(blend: C) -> spec_fn(
    Color,
    Color,
    Color,
    Color,
) -> bool {
    |glow: Color, attenuation: Color, incoming: Color, out: Color|
        blend.ensures((glow, attenuation, incoming), out)
}

/// The hit test for one ray.
pub open spec fn for_ray<T, M>(
    hits: spec_fn(T, Ray, Scalar, Scalar, Option<HitRecord<M>>) -> bool,
    r: Ray,
) -> spec_fn(T, Scalar, Scalar, Option<HitRecord<M>>) -> bool {
    |o: T, lo: Scalar, hi: Scalar, h: Option<HitRecord<M>>| hits(o, r, lo, hi, h)
}

/// What `ray_color` may return for a ray with `depth` bounces left.
///
/// With no bounce left it is black. Else the world is scanned for the
/// closest hit from 0.001 on. Without a hit it is the background. With a
/// hit, the surface emits `glow`; where the material does not scatter it is
/// `glow` alone, and where it scatters it is what the blending makes of
/// `glow`, the attenuation and the colour that the scattered ray brings
/// back with one bounce less. `hits`, `glows`, `scatters` and `blends` say
/// what the caller's four functions return.
pub open spec fn radiance<T, M>(
    r: Ray,
    background: Color,
    objects: Seq<T>,
    depth: nat,
    hits: spec_fn(T, Ray, Scalar, Scalar, Option<HitRecord<M>>) -> bool,
    glows: spec_fn(HitRecord<M>, Color) -> bool,
    scatters: spec_fn(Ray, HitRecord<M>, Option<(Color, Ray)>) -> bool,
    blends: spec_fn(Color, Color, Color, Color) -> bool,
    out: Color,
) -> bool
    decreases depth, 2int,
{
    if depth == 0 {
        out == black_spec()
    } else {
        exists|hit: Option<HitRecord<M>>| #[trigger]
            HittableList::<T>::scan(
                objects,
                Scalar { bits: NEAREST_BITS },
                for_ray(hits, r),
                0,
                Scalar::infinity_spec(),
                None,
                hit,
            ) && match hit {
                None => out == background,
                Some(rec) => shaded(
                    r,
                    background,
                    objects,
                    depth,
                    hits,
                    glows,
                    scatters,
                    blends,
                    rec,
                    out,
                ),
            }
    }
}

/// What `ray_color` may return once the ray has hit a surface.
pub open spec fn shaded<T, M>(
    r: Ray,
    background: Color,
    objects: Seq<T>,
    depth: nat,
    hits: spec_fn(T, Ray, Scalar, Scalar, Option<HitRecord<M>>) -> bool,
    glows: spec_fn(HitRecord<M>, Color) -> bool,
    scatters: spec_fn(Ray, HitRecord<M>, Option<(Color, Ray)>) -> bool,
    blends: spec_fn(Color, Color, Color, Color) -> bool,
    rec: HitRecord<M>,
    out: Color,
) -> bool
    decreases depth, 1int,
{
    exists|glow: Color, bounce: Option<(Color, Ray)>|
        #![trigger glows(rec, glow), scatters(r, rec, bounce)]
        glows(rec, glow) && scatters(r, rec, bounce) && match bounce {
            None => out == glow,
            Some((attenuation, scattered)) => gathered(
                background,
                objects,
                depth,
                hits,
                glows,
                scatters,
                blends,
                glow,
                attenuation,
                scattered,
                out,
            ),
        }
}

/// What `ray_color` may return once the material has scattered the ray.
pub open spec fn gathered<T, M>(
    background: Color,
    objects: Seq<T>,
    depth: nat,
    hits: spec_fn(T, Ray, Scalar, Scalar, Option<HitRecord<M>>) -> bool,
    glows: spec_fn(HitRecord<M>, Color) -> bool,
    scatters: spec_fn(Ray, HitRecord<M>, Option<(Color, Ray)>) -> bool,
    blends: spec_fn(Color, Color, Color, Color) -> bool,
    glow: Color,
    attenuation: Color,
    scattered: Ray,
    out: Color,
) -> bool
    decreases depth, 0int,
{
    depth > 0 && exists|incoming: Color|
        radiance(
            scattered,
            background,
            objects,
            (depth - 1) as nat,
            hits,
            glows,
            scatters,
            blends,
            incoming,
        ) && #[trigger] blends(glow, attenuation, incoming, out)
}

/// The colour that the ray `r` brings back, following it through at most
/// `depth` bounces. `probe` is the caller's hit test of one object,
/// `emitted` the light that the material of a hit gives off on its own,
/// `scatter` the material's scattering (the attenuation and the scattered
/// ray, or nothing where the ray is absorbed), and
/// `blend(glow, attenuation, incoming)` the caller's arithmetic: `glow`
/// plus `incoming` weighted channel by channel with `attenuation`.
pub fn ray_color<
    T,
    M,
    P: Fn(&T, &Ray, Scalar, Scalar) -> Option<HitRecord<M>>,
    E: Fn(&HitRecord<M>) -> Color,
    S: Fn(&Ray, &HitRecord<M>) -> Option<(Color, Ray)>,
    C: Fn(Color, Color, Color) -> Color,
>(
    r: &Ray,
    background: Color,
    world: &HittableList<T>,
    depth: usize,
    probe: &P,
    emitted: &E,
    scatter: &S,
    blend: &C,
) -> (out: Color)
    requires
        forall|i: int, ray: &Ray, lo: Scalar, hi: Scalar|
            0 <= i < world.objects.len() ==> #[trigger] probe.requires(
                (&world.objects[i], ray, lo, hi),
            ),
        forall|rec: &HitRecord<M>| #[trigger] emitted.requires((rec,)),
        forall|ray: &Ray, rec: &HitRecord<M>| #[trigger] scatter.requires((ray, rec)),
        forall|a: Color, b: Color, c: Color| #[trigger] blend.requires((a, b, c)),
    ensures
        radiance(
            *r,
            background,
            world.objects@,
            depth as nat,
            hits_of(*probe),
            glows_of(*emitted),
            scatters_of(*scatter),
            blends_of(*blend),
            out,
        ),
        depth == 0 ==> out == black_spec(),
    decreases depth,
{
    if depth == 0 {
        return black();
    }
    let ghost hits = hits_of::<T, M, P>(*probe);
    let ghost glows = glows_of::<M, E>(*emitted);
    let ghost scatters = scatters_of::<M, S>(*scatter);
    let ghost blends = blends_of(*blend);
    let nearest = Scalar::from_bits(NEAREST_BITS);
    let hit = world.hit(r, nearest, Scalar::infinity(), probe);
    let ghost hit0 = hit;
    assert(answers_of::<T, M, P>(*probe, *r) =~= for_ray(hits, *r));
    assert(HittableList::<T>::scan(
        world.objects@,
        Scalar { bits: NEAREST_BITS },
        for_ray(hits, *r),
        0,
        Scalar::infinity_spec(),
        None,
        hit0,
    ));
    let rec = match hit {
        Some(record) => record,
        None => {
            return background;
        },
    };
    let glow = emitted(&rec);
    let bounce = scatter(r, &rec);
    let ghost bounce0 = bounce;
    assert(glows(rec, glow) && scatters(*r, rec, bounce0));
    let (attenuation, scattered) = match bounce {
        Some(pair) => pair,
        None => {
            assert(shaded(
                *r,
                background,
                world.objects@,
                depth as nat,
                hits,
                glows,
                scatters,
                blends,
                rec,
                glow,
            ));
            return glow;
        },
    };
    let incoming = ray_color(
        &scattered,
        background,
        world,
        depth - 1,
        probe,
        emitted,
        scatter,
        blend,
    );
    let out = blend(glow, attenuation, incoming);
    assert(blends(glow, attenuation, incoming, out));
    assert(gathered(
        background,
        world.objects@,
        depth as nat,
        hits,
        glows,
        scatters,
        blends,
        glow,
        attenuation,
        scattered,
        out,
    ));
    assert(shaded(
        *r,
        background,
        world.objects@,
        depth as nat,
        hits,
        glows,
        scatters,
        blends,
        rec,
        out,
    ));
    out
}

} // verus!
