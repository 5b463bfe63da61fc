//! Textures: a constant colour, a checker of two textures, the tables of a
//! lattice noise, and lookup in a decoded image.
use vstd::prelude::*;
use vstd::seq_lib::{to_multiset_contains, to_multiset_update};
use crate::scalar::Scalar;
use crate::utilities::random_int_with_bounds;
use crate::vec3::{Point3, Vec3};

verus! {

pub use crate::color::Color;

/// Bytes per pixel of a decoded image: red, green, blue.
pub const BYTES_PER_PIXEL: usize = 3;

/// Entries in each table of the lattice noise.
pub const POINT_COUNT: usize = 256;

/// One colour everywhere.
#[derive(Clone, Copy, Debug, PartialEq, Eq, Structural)]
pub struct SolidColor {
    pub color_value: Color,
}

impl SolidColor {
    pub fn new(c: Color) -> (s: SolidColor)
        ensures
            s.color_value == c,
    {
        SolidColor { color_value: c }
    }

    /// The colour, whatever the surface coordinates and the point.
    pub fn value(&self, _u: Scalar, _v: Scalar, _p: Point3) -> (c: Color)
        ensures
            c == self.color_value,
    {
        self.color_value
    }
}

/// Two textures in alternating cells of space.
pub struct CheckerTexture<X> {
    pub even: X,
    pub odd: X,
}

impl<X> CheckerTexture<X> {
    pub fn new(even: X, odd: X) -> (c: CheckerTexture<X>)
        ensures
            c.even == even,
            c.odd == odd,
    {
        CheckerTexture { even, odd }
    }

    /// The texture of the cell: the odd one where `sines`, the product of
    /// the sines of ten times each coordinate of the point, is below zero,
    /// else the even one.
    pub open spec fn cell(self, sines: Scalar) -> X {
        if sines.lt_spec(Scalar::zero_spec()) {
            self.odd
        } else {
            self.even
        }
    }

    /// The colour at a point: what `sample` returns for the texture of the
    /// point's cell. `sines` is the product of the three sines; `sample` is
    /// the caller's evaluation of a texture.
    pub fn value<F: Fn(&X, Scalar, Scalar, Point3) -> Color>(
        &self,
        u: Scalar,
        v: Scalar,
        p: Point3,
        sines: Scalar,
        sample: &F,
    ) -> (c: Color)
        requires
            sample.requires((&self.odd, u, v, p)),
            sample.requires((&self.even, u, v, p)),
        ensures
            sample.ensures((&self.cell(sines), u, v, p), c),
    {
        if sines.lt(Scalar::zero()) {
            sample(&self.odd, u, v, p)
        } else {
            sample(&self.even, u, v, p)
        }
    }
}

/// The numbers from 0 up to `n`, in order.
pub open spec fn identity(n: nat) -> Seq<i32> {
    Seq::new(n, |i: int| i as i32)
}

/// The index of a lattice coordinate in a table: its lowest eight bits.
pub open spec fn low_byte(x: i32) -> int {
    (x as int) % 256
}

/// The lattice coordinate after `x`; the last one is followed by the first.
pub open spec fn step(x: i32, d: int) -> i32 {
    if d == 0 {
        x
    } else if x == i32::MAX {
        i32::MIN
    } else {
        (x + 1) as i32
    }
}

/// Exchanges two entries of a vector.
pub fn exchange(p: &mut Vec<i32>, i: usize, j: usize)
    requires
        i < old(p).len(),
        j < old(p).len(),
    ensures
        final(p)@ == old(p)@.update(i as int, old(p)@[j as int]).update(
            j as int,
            old(p)@[i as int],
        ),
        final(p)@.to_multiset() == old(p)@.to_multiset(),
{
    let ghost before = p@;
    let a = p[i];
    let b = p[j];
    p.set(i, b);
    p.set(j, a);
    proof {
        let mid = before.update(i as int, b);
        to_multiset_update(before, i as int, b);
        to_multiset_update(mid, j as int, a);
        to_multiset_contains(before, a);
        to_multiset_contains(before, b);
        assert(before.contains(a));
        assert(before.contains(b));
        assert(p@.to_multiset() =~= before.to_multiset());
    }
}

/// The tables of the lattice noise: 256 scalars and three rearrangements of
/// the numbers 0 to 255, fixed once made.
pub struct Perlin {
    ranfloat: Vec<Scalar>,
    perm_x: Vec<i32>,
    perm_y: Vec<i32>,
    perm_z: Vec<i32>,
}

impl Perlin {
    #[verifier::type_invariant]
    closed spec fn wf(self) -> bool {
        &&& self.ranfloat.len() == POINT_COUNT
        &&& self.perm_x@.to_multiset() == identity(POINT_COUNT as nat).to_multiset()
        &&& self.perm_y@.to_multiset() == identity(POINT_COUNT as nat).to_multiset()
        &&& self.perm_z@.to_multiset() == identity(POINT_COUNT as nat).to_multiset()
        &&& self.perm_x.len() == POINT_COUNT
        &&& self.perm_y.len() == POINT_COUNT
        &&& self.perm_z.len() == POINT_COUNT
    }

    /// The 256 scalars.
    pub closed spec fn scalars(self) -> Seq<Scalar> {
        self.ranfloat@
    }

    /// The table for the x coordinate.
    pub closed spec fn table_x(self) -> Seq<i32> {
        self.perm_x@
    }

    /// The table for the y coordinate.
    pub closed spec fn table_y(self) -> Seq<i32> {
        self.perm_y@
    }

    /// The table for the z coordinate.
    pub closed spec fn table_z(self) -> Seq<i32> {
        self.perm_z@
    }

    /// Where the lattice point `(x, y, z)` finds its scalar: the three table
    /// entries for the coordinates' low bytes, combined bit by bit with
    /// exclusive or.
    pub open spec fn slot(self, x: i32, y: i32, z: i32) -> int {
        ((self.table_x()[low_byte(x)] as usize) ^ (self.table_y()[low_byte(y)] as usize) ^ (
        self.table_z()[low_byte(z)] as usize)) as int
    }

    /// The scalar of a lattice point.
    pub open spec fn at(self, x: i32, y: i32, z: i32) -> Scalar {
        self.scalars()[self.slot(x, y, z)]
    }

    /// The scalars of the eight lattice points around a cell, the x step
    /// changing slowest and the z step fastest.
    pub open spec fn around(self, i: i32, j: i32, k: i32) -> Seq<Scalar> {
        Seq::new(
            8,
            |n: int| self.at(step(i, n / 4), step(j, (n / 2) % 2), step(k, n % 2)),
        )
    }

    /// Every table is a rearrangement of 0 to 255, so every lattice point
    /// finds one of the 256 scalars.
    pub proof fn tables_are_rearrangements(self)
        requires
            self.wf_public(),
        ensures
            self.scalars().len() == 256,
            self.table_x().len() == 256 && self.table_x().to_multiset() == identity(256).to_multiset(),
            self.table_y().len() == 256 && self.table_y().to_multiset() == identity(256).to_multiset(),
            self.table_z().len() == 256 && self.table_z().to_multiset() == identity(256).to_multiset(),
            forall|x: i32, y: i32, z: i32| 0 <= #[trigger] self.slot(x, y, z) < 256,
    {
        assert forall|x: i32, y: i32, z: i32| 0 <= #[trigger] self.slot(x, y, z) < 256 by {
            let a = self.perm_x@[low_byte(x)];
            let b = self.perm_y@[low_byte(y)];
            let c = self.perm_z@[low_byte(z)];
            in_range(self.perm_x@, low_byte(x));
            in_range(self.perm_y@, low_byte(y));
            in_range(self.perm_z@, low_byte(z));
            let ua = a as usize;
            let ub = b as usize;
            let uc = c as usize;
            assert(ua < 256 && ub < 256 && uc < 256 ==> (ua ^ ub ^ uc) < 256) by (bit_vector);
        }
    }

    /// What every value of the type satisfies.
    pub closed spec fn wf_public(self) -> bool {
        self.wf()
    }

    pub fn point_count() -> (n: usize)
        ensures
            n == 256,
    {
        POINT_COUNT
    }

    /// New tables. `random_double` is the caller's source of random scalars;
    /// it is asked 256 times, in order. The three tables are shuffled
    /// independently.
    pub fn new<F: Fn() -> Scalar>(random_double: &F) -> (perlin: Perlin)
        requires
            random_double.requires(()),
        ensures
            perlin.wf_public(),
            forall|i: int|
                0 <= i < 256 ==> random_double.ensures((), #[trigger] perlin.scalars()[i]),
    {
        let mut ranfloat: Vec<Scalar> = Vec::new();
        let mut i: usize = 0;
        while i < POINT_COUNT
            invariant
                i <= POINT_COUNT,
                ranfloat.len() == i,
                random_double.requires(()),
                forall|k: int| 0 <= k < i ==> random_double.ensures((), #[trigger] ranfloat@[k]),
            decreases POINT_COUNT - i,
        {
            ranfloat.push(random_double());
            i += 1;
        }
        let perm_x = Self::perlin_generate_perm();
        let perm_y = Self::perlin_generate_perm();
        let perm_z = Self::perlin_generate_perm();
        Perlin { ranfloat, perm_x, perm_y, perm_z }
    }

    /// The numbers 0 to 255 in a random order.
    pub fn perlin_generate_perm() -> (p: Vec<i32>)
        ensures
            p.len() == 256,
            p@.to_multiset() == identity(256).to_multiset(),
    {
        let mut p: Vec<i32> = Vec::new();
        let mut i: usize = 0;
        while i < POINT_COUNT
            invariant
                i <= POINT_COUNT,
                p@ == identity(i as nat),
            decreases POINT_COUNT - i,
        {
            p.push(i as i32);
            assert(p@ =~= identity((i + 1) as nat));
            i += 1;
        }
        Self::permute(&mut p, POINT_COUNT);
        p
    }

    /// Shuffles the first `n` entries of `p`: from the last of them down,
    /// each is exchanged with an entry drawn at random among those up to
    /// and including itself. The entries from `n` on stay.
    pub fn permute(p: &mut Vec<i32>, n: usize)
        requires
            n <= old(p).len(),
            n <= i32::MAX,
        ensures
            final(p).len() == old(p).len(),
            final(p)@.to_multiset() == old(p)@.to_multiset(),
            forall|k: int| n <= k < old(p).len() ==> final(p)@[k] == old(p)@[k],
            exists|draws: Seq<int>| #[trigger]
                drawn_in_turn(draws, n as int) && final(p)@ == shuffled(
                    old(p)@,
                    n as int,
                    0,
                    draws,
                ),
    {
        let ghost mut draws: Seq<int> = Seq::new(n as nat, |k: int| k);
        let mut i: usize = n;
        while i > 0
            invariant
                i <= n <= p.len(),
                n <= i32::MAX,
                p.len() == old(p).len(),
                p@.to_multiset() == old(p)@.to_multiset(),
                forall|k: int| n <= k < old(p).len() ==> p@[k] == old(p)@[k],
                drawn_in_turn(draws, n as int),
                p@ == shuffled(old(p)@, n as int, i as int, draws),
            decreases i,
        {
            i -= 1;
            let target = random_int_with_bounds(0, i as i32 + 1);
            let ghost before = p@;
            exchange(p, i, target as usize);
            proof {
                let next = draws.update(i as int, target as int);
                shuffled_by_later_draws(old(p)@, n as int, i + 1, draws, next);
                assert(p@ == exchanged(before, i as int, next[i as int]));
                draws = next;
            }
        }
    }

    /// The table entry for a lattice coordinate.
    fn entry(table: &Vec<i32>, x: i32) -> (e: usize)
        requires
            table.len() == 256,
            table@.to_multiset() == identity(256).to_multiset(),
        ensures
            e == table@[low_byte(x)] as usize,
            e < 256,
    {
        let index = if x >= 0 {
            (x % 256) as usize
        } else {
            (255 - (-(x + 1)) % 256) as usize
        };
        proof {
            in_range(table@, low_byte(x));
        }
        table[index] as usize
    }

    /// The scalar of the lattice point `(x, y, z)`.
    pub fn lattice(&self, x: i32, y: i32, z: i32) -> (s: Scalar)
        ensures
            s == self.at(x, y, z),
    {
        proof {
            use_type_invariant(self);
        }
        let a = Self::entry(&self.perm_x, x);
        let b = Self::entry(&self.perm_y, y);
        let c = Self::entry(&self.perm_z, z);
        assert(a < 256 && b < 256 && c < 256 ==> (a ^ b ^ c) < 256) by (bit_vector);
        self.ranfloat[a ^ b ^ c]
    }

    /// The scalars of the eight lattice points around the cell `(i, j, k)`,
    /// for the interpolation that the caller does between them.
    pub fn corners(&self, i: i32, j: i32, k: i32) -> (c: Vec<Scalar>)
        ensures
            c@ == self.around(i, j, k),
    {
        let i1 = if i == i32::MAX {
            i32::MIN
        } else {
            i + 1
        };
        let j1 = if j == i32::MAX {
            i32::MIN
        } else {
            j + 1
        };
        let k1 = if k == i32::MAX {
            i32::MIN
        } else {
            k + 1
        };
        let mut c: Vec<Scalar> = Vec::new();
        c.push(self.lattice(i, j, k));
        c.push(self.lattice(i, j, k1));
        c.push(self.lattice(i, j1, k));
        c.push(self.lattice(i, j1, k1));
        c.push(self.lattice(i1, j, k));
        c.push(self.lattice(i1, j, k1));
        c.push(self.lattice(i1, j1, k));
        c.push(self.lattice(i1, j1, k1));
        assert(c@ =~= self.around(i, j, k));
        c
    }

    /// The table for the x coordinate, copied out.
    pub fn perm_x(&self) -> (p: Vec<i32>)
        ensures
            p@ == self.table_x(),
    {
        self.perm_x.clone()
    }

    /// The table for the y coordinate, copied out.
    pub fn perm_y(&self) -> (p: Vec<i32>)
        ensures
            p@ == self.table_y(),
    {
        self.perm_y.clone()
    }

    /// The table for the z coordinate, copied out.
    pub fn perm_z(&self) -> (p: Vec<i32>)
        ensures
            p@ == self.table_z(),
    {
        self.perm_z.clone()
    }

    /// The 256 scalars, copied out.
    pub fn ranfloat(&self) -> (s: Vec<Scalar>)
        ensures
            s@ == self.scalars(),
    {
        self.ranfloat.clone()
    }
}

/// An entry of a rearrangement of 0 to 255 is one of those numbers.
proof fn in_range(table: Seq<i32>, at: int)
    requires
        table.to_multiset() == identity(256).to_multiset(),
        0 <= at < table.len(),
    ensures
        0 <= table[at] < 256,
{
    let e = table[at];
    to_multiset_contains(table, e);
    to_multiset_contains(identity(256), e);
    assert(table.contains(e));
    assert(identity(256).contains(e));
    let k = choose|k: int| 0 <= k < identity(256).len() && identity(256)[k] == e;
}

/// The lattice noise with a scale for the points fed to it.
pub struct NoiseTexture {
    pub noise: Perlin,
    pub scale: Scalar,
}

impl NoiseTexture {
    /// A noise texture with fresh tables; `random_double` as for
    /// `Perlin::new`.
    pub fn new<F: Fn() -> Scalar>(scale: Scalar, random_double: &F) -> (t: NoiseTexture)
        requires
            random_double.requires(()),
        ensures
            t.scale == scale,
            t.noise.wf_public(),
            forall|i: int|
                0 <= i < 256 ==> random_double.ensures((), #[trigger] t.noise.scalars()[i]),
    {
        NoiseTexture { noise: Perlin::new(random_double), scale }
    }
}

/// What `image::load_from_memory` makes of the bytes of an encoded image,
/// brought to three bytes per pixel by `DynamicImage::into_rgb8`: the pixel
/// buffer, the width and the height; or nothing where the bytes are not an
/// image that the crate can decode.
pub uninterp spec fn decoded_rgb8(bytes: Seq<u8>) -> Option<(Seq<u8>, u32, u32)>;

/// Decodes an image held in memory with `image::load_from_memory`, turns it
/// into three bytes per pixel with `into_rgb8`, and takes the buffer apart
/// with `width`, `height` and `into_raw`. The result is `decoded_rgb8` of
/// the bytes. The crate's image buffer never holds fewer bytes than its
/// width times its height times the bytes of a pixel, which is stated too.
#[verifier::external_body]
fn decode_rgb8(bytes: &Vec<u8>) -> (out: Option<(Vec<u8>, u32, u32)>)
    ensures
        match out {
            Some((data, width, height)) => decoded_rgb8(bytes@) == Some((data@, width, height))
                && 3 * width * height <= data@.len(),
            None => decoded_rgb8(bytes@).is_none(),
        },
{
    match image::load_from_memory(bytes) {
        Ok(img) => {
            let buf = img.into_rgb8();
            let (width, height) = (buf.width(), buf.height());
            Some((buf.into_raw(), width, height))
        },
        Err(_) => None,
    }
}

/// A decoded image: rows of pixels from the top down, three bytes to a
/// pixel.
pub struct ImageTexture {
    data: Vec<u8>,
    width: usize,
    height: usize,
    bytes_per_scanline: usize,
}

impl ImageTexture {
    #[verifier::type_invariant]
    closed spec fn wf(self) -> bool {
        &&& self.width > 0
        &&& self.height > 0
        &&& self.bytes_per_scanline == BYTES_PER_PIXEL * self.width
        &&& self.height * self.bytes_per_scanline <= self.data.len()
    }

    /// The pixel buffer.
    pub closed spec fn pixels(self) -> Seq<u8> {
        self.data@
    }

    /// Pixels in a row.
    pub closed spec fn columns(self) -> int {
        self.width as int
    }

    /// Rows.
    pub closed spec fn rows(self) -> int {
        self.height as int
    }

    /// Whether a buffer holds an image of the given size: there is at least
    /// one pixel, and the buffer has three bytes for each.
    pub open spec fn fits(data: Seq<u8>, width: int, height: int) -> bool {
        width > 0 && height > 0 && 3 * width * height <= data.len()
    }

    /// Where the pixel in column `i` of row `j` starts in the buffer. A
    /// column or row past the last counts as the last.
    pub open spec fn offset(self, i: int, j: int) -> int {
        let column = if i >= self.columns() {
            self.columns() - 1
        } else {
            i
        };
        let row = if j >= self.rows() {
            self.rows() - 1
        } else {
            j
        };
        row * (3 * self.columns()) + column * 3
    }

    /// The image fits its buffer, so every pixel's three bytes are in it.
    pub proof fn pixels_in_buffer(self, i: int, j: int)
        requires
            self.made(),
            0 <= i,
            0 <= j,
        ensures
            Self::fits(self.pixels(), self.columns(), self.rows()),
            0 <= self.offset(i, j),
            self.offset(i, j) + 2 < self.pixels().len(),
    {
        let w = self.columns();
        let h = self.rows();
        let column = if i >= w {
            w - 1
        } else {
            i
        };
        let row = if j >= h {
            h - 1
        } else {
            j
        };
        assert(3 * w * h == h * (3 * w)) by (nonlinear_arith);
        assert(row * (3 * w) + column * 3 + 3 <= h * (3 * w)) by (nonlinear_arith)
            requires
                0 <= row < h,
                0 <= column < w,
        ;
        assert(0 <= row * (3 * w) + column * 3) by (nonlinear_arith)
            requires
                0 <= row,
                0 <= column,
                w > 0,
        ;
    }

    /// What every value of the type satisfies.
    pub closed spec fn made(self) -> bool {
        self.wf()
    }

    /// A texture over a buffer of pixels already decoded. There is none
    /// where the size has no pixel or asks for more bytes than the buffer
    /// holds.
    pub fn from_pixels(data: Vec<u8>, width: usize, height: usize) -> (out: Option<ImageTexture>)
        ensures
            out.is_some() <==> Self::fits(data@, width as int, height as int),
            out matches Some(t) ==> t.made() && t.pixels() == data@ && t.columns() == width
                && t.rows() == height,
    {
        if width == 0 || height == 0 {
            return None;
        }
        if width > usize::MAX / BYTES_PER_PIXEL {
            assert(3 * width * height > data.len()) by (nonlinear_arith)
                requires
                    3 * width > usize::MAX,
                    height >= 1,
                    data.len() <= usize::MAX,
            ;
            return None;
        }
        let bytes_per_scanline = width * BYTES_PER_PIXEL;
        if height > data.len() / bytes_per_scanline {
            assert(3 * width * height > data@.len()) by (nonlinear_arith)
                requires
                    bytes_per_scanline == 3 * width,
                    bytes_per_scanline > 0,
                    height > (data@.len() as int) / (bytes_per_scanline as int),
            ;
            return None;
        }
        assert(height * bytes_per_scanline <= data@.len() && 3 * width * height
            == height * bytes_per_scanline) by (nonlinear_arith)
            requires
                bytes_per_scanline == 3 * width,
                bytes_per_scanline > 0,
                height <= (data@.len() as int) / (bytes_per_scanline as int),
        ;
        Some(ImageTexture { data, width, height, bytes_per_scanline })
    }

    /// A texture from the bytes of an encoded image, as a file holds them.
    /// There is none where the bytes cannot be decoded, and none where the
    /// decoded image has no pixels.
    pub fn new(bytes: &Vec<u8>) -> (out: Option<ImageTexture>)
        ensures
            match decoded_rgb8(bytes@) {
                Some((data, width, height)) => if width > 0 && height > 0 {
                    out matches Some(t) && t.made() && t.pixels() == data && t.columns() == width
                        && t.rows() == height
                } else {
                    out.is_none()
                },
                None => out.is_none(),
            },
    {
        match decode_rgb8(bytes) {
            None => None,
            Some((data, width, height)) => {
                assert(width > 0 && height > 0 ==> 3 * (width as int) * (height as int) == 3
                    * width * height);
                Self::from_pixels(data, width as usize, height as usize)
            },
        }
    }

    pub fn width(&self) -> (w: usize)
        ensures
            w == self.columns(),
    {
        self.width
    }

    pub fn height(&self) -> (h: usize)
        ensures
            h == self.rows(),
    {
        self.height
    }

    /// The red, green and blue byte of the pixel in column `i` of row `j`,
    /// rows counted from the top. A column or row past the last counts as
    /// the last.
    pub fn pixel(&self, i: usize, j: usize) -> (rgb: (u8, u8, u8))
        ensures
            rgb.0 == self.pixels()[self.offset(i as int, j as int)],
            rgb.1 == self.pixels()[self.offset(i as int, j as int) + 1],
            rgb.2 == self.pixels()[self.offset(i as int, j as int) + 2],
    {
        proof {
            use_type_invariant(self);
            self.pixels_in_buffer(i as int, j as int);
        }
        let i = if i >= self.width {
            self.width - 1
        } else {
            i
        };
        let j = if j >= self.height {
            self.height - 1
        } else {
            j
        };
        assert(j * self.bytes_per_scanline + i * BYTES_PER_PIXEL + 3 <= self.height
            * self.bytes_per_scanline) by (nonlinear_arith)
            requires
                j < self.height,
                i < self.width,
                self.bytes_per_scanline == 3 * self.width,
                BYTES_PER_PIXEL == 3,
        ;
        assert(j * self.bytes_per_scanline == j * (3 * self.width)) by (nonlinear_arith)
            requires
                self.bytes_per_scanline == 3 * self.width,
        ;
        let at = j * self.bytes_per_scanline + i * BYTES_PER_PIXEL;
        (self.data[at], self.data[at + 1], self.data[at + 2])
    }
}

/// The sequence with the entries in places `i` and `j` exchanged.
pub open spec fn exchanged(s: Seq<i32>, i: int, j: int) -> Seq<i32> {
    s.update(i, s[j]).update(j, s[i])
}

/// Whether `draws` can be the draws of a shuffle of `n` entries: one for
/// each entry, among the places up to and including the entry's own.
pub open spec fn drawn_in_turn(draws: Seq<int>, n: int) -> bool {
    draws.len() == n && forall|i: int| 0 <= i < n ==> 0 <= #[trigger] draws[i] <= i
}

/// The entries once a shuffle of the first `n` of them has come down from
/// the last to entry `from`: each entry on the way was exchanged, in its
/// turn, with the entry in the place drawn for it.
pub open spec fn shuffled(s: Seq<i32>, n: int, from: int, draws: Seq<int>) -> Seq<i32>
    decreases n - from,
{
    if from >= n {
        s
    } else {
        exchanged(shuffled(s, n, from + 1, draws), from, draws[from])
    }
}

/// How far a shuffle has come depends on the draws for the entries that it
/// has passed, not on the draws to come.
pub proof fn shuffled_by_later_draws(
    s: Seq<i32>,
    n: int,
    from: int,
    first: Seq<int>,
    second: Seq<int>,
)
    requires
        first.len() == second.len(),
        forall|k: int| from <= k < n && 0 <= k < first.len() ==> first[k] == second[k],
        0 <= from,
        n <= first.len(),
    ensures
        shuffled(s, n, from, first) == shuffled(s, n, from, second),
    decreases n - from,
{
    if from < n {
        shuffled_by_later_draws(s, n, from + 1, first, second);
    }
}

} // verus!
