use vstd::prelude::*;

verus! {

/// A colour, or a difference of colours, in device RGB space.
///
/// The three components are on the scale of the samples themselves
/// (0 to 255 for a colour) and are kept as whole numbers, so every
/// operation below is exact.
#[derive(Clone, Copy, Debug, PartialEq, Eq, Structural)]
pub struct Rgb {
    pub r: i32,
    pub g: i32,
    pub b: i32,
}

/// The value of a sample after conversion to a byte: negative values
/// become 0 and values above 255 become 255.
pub open spec fn clamp_to_byte(v: int) -> int {
    if v < 0 {
        0
    } else if v > 255 {
        255
    } else {
        v
    }
}

/// Absolute value of a whole number.
pub open spec fn magnitude(v: int) -> int {
    if v < 0 {
        -v
    } else {
        v
    }
}

fn byte_of(v: i32) -> (byte: u8)
    ensures
        byte == clamp_to_byte(v as int),
{
    if v < 0 {
        0
    } else if v > 255 {
        255
    } else {
        v as u8
    }
}

fn square(v: i32) -> (sq: u64)
    ensures
        sq == (v as int) * (v as int),
        sq <= 0x4000_0000_0000_0000,
{
    let wide: i64 = v as i64;
    assert(0 <= wide * wide <= 0x4000_0000_0000_0000) by (nonlinear_arith)
        requires
            -0x8000_0000 <= wide <= 0x7fff_ffff,
    ;
    (wide * wide) as u64
}

impl Rgb {
    /// Sum of the squares of the three components.
    pub open spec fn spec_squared_len(&self) -> int {
        self.r * self.r + self.g * self.g + self.b * self.b
    }

    /// Sum of the squares of the componentwise differences.
    pub open spec fn spec_squared_distance(&self, other: &Rgb) -> int {
        (self.r - other.r) * (self.r - other.r) + (self.g - other.g) * (self.g - other.g) + (self.b
            - other.b) * (self.b - other.b)
    }

    /// The colour of a sample: its red, green and blue channels as they
    /// are. The alpha channel plays no part.
    pub fn from_rgba(sample: &[u8; 4]) -> (v: Rgb)
        ensures
            v.r == sample[0],
            v.g == sample[1],
            v.b == sample[2],
    {
        Rgb { r: sample[0] as i32, g: sample[1] as i32, b: sample[2] as i32 }
    }

    /// The colour held in the first three bytes of `rgb`.
    pub fn from_u8(rgb: &[u8]) -> (v: Rgb)
        requires
            rgb@.len() >= 3,
        ensures
            v.r == rgb@[0],
            v.g == rgb@[1],
            v.b == rgb@[2],
    {
        Rgb { r: rgb[0] as i32, g: rgb[1] as i32, b: rgb[2] as i32 }
    }

    /// The three components as bytes, each clamped to the range of a byte.
    pub fn to_u8(&self) -> (bytes: [u8; 3])
        ensures
            bytes[0] == clamp_to_byte(self.r as int),
            bytes[1] == clamp_to_byte(self.g as int),
            bytes[2] == clamp_to_byte(self.b as int),
    {
        [byte_of(self.r), byte_of(self.g), byte_of(self.b)]
    }

    /// The three components in the order red, green, blue.
    pub fn to_array(&self) -> (components: [i32; 3])
        ensures
            components[0] == self.r,
            components[1] == self.g,
            components[2] == self.b,
    {
        [self.r, self.g, self.b]
    }

    /// Componentwise sum.
    pub fn add(self, rhs: Rgb) -> (sum: Rgb)
        requires
            i32::MIN <= self.r + rhs.r <= i32::MAX,
            i32::MIN <= self.g + rhs.g <= i32::MAX,
            i32::MIN <= self.b + rhs.b <= i32::MAX,
        ensures
            sum.r == self.r + rhs.r,
            sum.g == self.g + rhs.g,
            sum.b == self.b + rhs.b,
    {
        Rgb { r: self.r + rhs.r, g: self.g + rhs.g, b: self.b + rhs.b }
    }

    /// Componentwise difference.
    pub fn sub(self, rhs: Rgb) -> (difference: Rgb)
        requires
            i32::MIN <= self.r - rhs.r <= i32::MAX,
            i32::MIN <= self.g - rhs.g <= i32::MAX,
            i32::MIN <= self.b - rhs.b <= i32::MAX,
        ensures
            difference.r == self.r - rhs.r,
            difference.g == self.g - rhs.g,
            difference.b == self.b - rhs.b,
    {
        Rgb { r: self.r - rhs.r, g: self.g - rhs.g, b: self.b - rhs.b }
    }

    /// Componentwise product.
    pub fn mul(self, rhs: Rgb) -> (product: Rgb)
        requires
            i32::MIN <= self.r * rhs.r <= i32::MAX,
            i32::MIN <= self.g * rhs.g <= i32::MAX,
            i32::MIN <= self.b * rhs.b <= i32::MAX,
        ensures
            product.r == self.r * rhs.r,
            product.g == self.g * rhs.g,
            product.b == self.b * rhs.b,
    {
        Rgb { r: self.r * rhs.r, g: self.g * rhs.g, b: self.b * rhs.b }
    }

    /// Componentwise absolute value.
    pub fn abs_each(&self) -> (v: Rgb)
        requires
            self.r > i32::MIN,
            self.g > i32::MIN,
            self.b > i32::MIN,
        ensures
            v.r == magnitude(self.r as int),
            v.g == magnitude(self.g as int),
            v.b == magnitude(self.b as int),
    {
        Rgb {
            r: if self.r < 0 { -self.r } else { self.r },
            g: if self.g < 0 { -self.g } else { self.g },
            b: if self.b < 0 { -self.b } else { self.b },
        }
    }

    /// Squared Euclidean length.
    pub fn squared_len(&self) -> (len: u64)
        ensures
            len == self.spec_squared_len(),
    {
        square(self.r) + square(self.g) + square(self.b)
    }

    /// Squared Euclidean distance to `other`.
    pub fn squared_distance(&self, other: &Rgb) -> (distance: u64)
        requires
            i32::MIN <= self.r - other.r <= i32::MAX,
            i32::MIN <= self.g - other.g <= i32::MAX,
            i32::MIN <= self.b - other.b <= i32::MAX,
        ensures
            distance == self.spec_squared_distance(other),
    {
        self.sub(*other).squared_len()
    }
}

} // verus!
