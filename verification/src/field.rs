use vstd::prelude::*;
use vstd::arithmetic::div_mod::lemma_fundamental_div_mod_converse;

verus! {

/// Row-major position of the pixel in column `x` of row `y` of an image
/// that is `width` pixels wide.
pub open spec fn index_of(x: int, y: int, width: int) -> int {
    x + y * width
}

/// The upper neighbour of position `i` on an axis of length `n`: the
/// next position, or `i` itself where there is none.
pub open spec fn axis_next(i: int, n: int) -> int {
    if i + 1 < n {
        i + 1
    } else {
        i
    }
}

/// The lower neighbour of position `i` on an axis: the previous position,
/// or `i` itself where there is none.
pub open spec fn axis_prev(i: int, n: int) -> int {
    if i > 0 {
        i - 1
    } else {
        i
    }
}

/// A position inside the image has its row-major index inside the buffer.
pub proof fn lemma_index_in_bounds(x: int, y: int, width: int, height: int)
    requires
        0 <= x < width,
        0 <= y < height,
    ensures
        0 <= index_of(x, y, width) < width * height,
{
    assert(0 <= y * width && y * width + width <= height * width) by (nonlinear_arith)
        requires
            0 <= y < height,
            0 <= width,
    ;
    assert(height * width == width * height) by (nonlinear_arith);
}

/// The column and the row of a pixel are recovered from its index by
/// remainder and quotient.
pub proof fn lemma_index_coordinates(x: int, y: int, width: int)
    requires
        0 <= x < width,
    ensures
        index_of(x, y, width) % width == x,
        index_of(x, y, width) / width == y,
{
    lemma_fundamental_div_mod_converse(index_of(x, y, width), width, y, x);
}

/// The pair of neighbours that a finite difference along one axis is
/// taken between: forward at the first position, backward at the last,
/// central in between. On an axis of length one both neighbours are the
/// position itself, so that the difference along that axis is zero.
pub proof fn lemma_neighbor_policy(i: int, n: int)
    requires
        0 <= i < n,
    ensures
        n == 1 ==> axis_next(i, n) == i && axis_prev(i, n) == i,
        n > 1 && i == 0 ==> axis_next(i, n) == i + 1 && axis_prev(i, n) == i,
        n > 1 && i == n - 1 ==> axis_next(i, n) == i && axis_prev(i, n) == i - 1,
        0 < i < n - 1 ==> axis_next(i, n) == i + 1 && axis_prev(i, n) == i - 1,
        0 <= axis_prev(i, n) <= axis_next(i, n) < n,
{
}

/// Computes the row-major index `x + y * width`.
pub fn get_index(x: u32, y: u32, width: u32) -> (index: usize)
    requires
        index_of(x as int, y as int, width as int) <= usize::MAX,
    ensures
        index == index_of(x as int, y as int, width as int),
{
    let row: usize = y as usize * width as usize;
    x as usize + row
}

/// The two positions between which the difference at position `i` of an
/// axis of length `n` is taken, upper one first.
pub fn neighbor_pair(i: u32, n: u32) -> (pair: (u32, u32))
    requires
        i < n,
    ensures
        pair.0 == axis_next(i as int, n as int),
        pair.1 == axis_prev(i as int, n as int),
        pair.1 <= pair.0 < n,
{
    let next: u32 = if i < n - 1 {
        i + 1
    } else {
        i
    };
    let prev: u32 = if i > 0 {
        i - 1
    } else {
        i
    };
    (next, prev)
}

/// A buffer of converted pixels, one value per pixel in row-major order,
/// together with the width and height of the image.
pub struct PixelField<T> {
    pub width: u32,
    pub height: u32,
    pub data: Vec<T>,
}

impl<T> View for PixelField<T> {
    type V = Seq<T>;

    open spec fn view(&self) -> Seq<T> {
        self.data@
    }
}

impl<T: Copy> PixelField<T> {
    /// The buffer holds exactly one value per pixel.
    pub open spec fn wf(&self) -> bool {
        self.data@.len() == self.width * self.height
    }

    /// The value at column `x` of row `y`.
    pub open spec fn spec_at(&self, x: int, y: int) -> T {
        self@[index_of(x, y, self.width as int)]
    }

    /// The four values that the gradient at the pixel of index `i` is
    /// taken between: the upper and lower neighbour along the row, then
    /// the upper and lower neighbour along the column.
    pub open spec fn stencil(&self, i: int) -> (T, T, T, T) {
        let w = self.width as int;
        let h = self.height as int;
        let x = i % w;
        let y = i / w;
        (
            self.spec_at(axis_next(x, w), y),
            self.spec_at(axis_prev(x, w), y),
            self.spec_at(x, axis_next(y, h)),
            self.spec_at(x, axis_prev(y, h)),
        )
    }

    /// Makes a field of `width` by `height` pixels out of `data`, if
    /// `data` holds exactly one value per pixel.
    pub fn new(width: u32, height: u32, data: Vec<T>) -> (field: Option<Self>)
        ensures
            field is Some <==> data@.len() == width * height,
            field is Some ==> field->0.wf() && field->0.width == width && field->0.height
                == height && field->0.data == data,
    {
        assert(0 <= width * height <= 0xffff_ffff * 0xffff_ffff) by (nonlinear_arith)
            requires
                0 <= width <= 0xffff_ffff,
                0 <= height <= 0xffff_ffff,
        ;
        let size: u64 = width as u64 * height as u64;
        if data.len() as u64 == size {
            Some(PixelField { width, height, data })
        } else {
            None
        }
    }

    /// Width of the image in pixels.
    pub fn width(&self) -> (width: u32)
        ensures
            width == self.width,
    {
        self.width
    }

    /// Height of the image in pixels.
    pub fn height(&self) -> (height: u32)
        ensures
            height == self.height,
    {
        self.height
    }

    /// The value at column `x` of row `y`.
    pub fn at(&self, x: u32, y: u32) -> (value: T)
        requires
            self.wf(),
            x < self.width,
            y < self.height,
        ensures
            value == self.spec_at(x as int, y as int),
    {
        let size: usize = self.data.len();
        proof {
            lemma_index_in_bounds(x as int, y as int, self.width as int, self.height as int);
        }
        let index: usize = get_index(x, y, self.width);
        assert(index < size);
        self.data[index]
    }
}

/// Converts every value of `field` with `to_vector`, once and in
/// row-major order, into a field of the same width and height.
pub fn convert_field<T: Copy, U: Copy, F: Fn(T) -> U>(field: &PixelField<T>, to_vector: F) -> (converted:
    PixelField<U>)
    requires
        field.wf(),
        forall|sample: T| call_requires(to_vector, (sample,)),
    ensures
        converted.wf(),
        converted.width == field.width,
        converted.height == field.height,
        forall|i: int|
            0 <= i < field@.len() ==> call_ensures(to_vector, (field@[i],), #[trigger] converted@[i]),
{
    let size: usize = field.data.len();
    let mut data: Vec<U> = Vec::new();
    while data.len() < size
        invariant
            size == field@.len(),
            data@.len() <= size,
            forall|sample: T| call_requires(to_vector, (sample,)),
            forall|i: int|
                0 <= i < data@.len() ==> call_ensures(to_vector, (field@[i],), #[trigger] data@[i]),
        decreases size - data@.len(),
    {
        let vector: U = to_vector(field.data[data.len()]);
        data.push(vector);
    }
    PixelField { width: field.width, height: field.height, data }
}

/// Evaluates `measure` once for every pixel of `field`, in row-major
/// order, on the four neighbouring values that the gradient at that
/// pixel is taken between, and collects the results.
pub fn gradient_field<T: Copy, E, F: Fn(T, T, T, T) -> E>(field: &PixelField<T>, measure: F) -> (out:
    Vec<E>)
    requires
        field.wf(),
        forall|a: T, b: T, c: T, d: T| call_requires(measure, (a, b, c, d)),
    ensures
        out@.len() == field@.len(),
        forall|i: int|
            0 <= i < out@.len() ==> call_ensures(measure, field.stencil(i), #[trigger] out@[i]),
{
    let width: u32 = field.width;
    let height: u32 = field.height;
    let mut out: Vec<E> = Vec::new();
    let mut y: u32 = 0;
    while y < height
        invariant
            field.wf(),
            width == field.width,
            height == field.height,
            y <= height,
            out@.len() == y * width,
            forall|a: T, b: T, c: T, d: T| call_requires(measure, (a, b, c, d)),
            forall|i: int|
                0 <= i < out@.len() ==> call_ensures(measure, field.stencil(i), #[trigger] out@[i]),
        decreases height - y,
    {
        let mut x: u32 = 0;
        while x < width
            invariant
                field.wf(),
                width == field.width,
                height == field.height,
                y < height,
                x <= width,
                out@.len() == y * width + x,
                forall|a: T, b: T, c: T, d: T| call_requires(measure, (a, b, c, d)),
                forall|i: int|
                    0 <= i < out@.len() ==> call_ensures(
                        measure,
                        field.stencil(i),
                        #[trigger] out@[i],
                    ),
            decreases width - x,
        {
            let across = neighbor_pair(x, width);
            let along = neighbor_pair(y, height);
            let energy = measure(
                field.at(across.0, y),
                field.at(across.1, y),
                field.at(x, along.0),
                field.at(x, along.1),
            );
            proof {
                lemma_fundamental_div_mod_converse(
                    y * width + x,
                    width as int,
                    y as int,
                    x as int,
                );
            }
            out.push(energy);
            x += 1;
        }
        assert(y * width + width == (y + 1) * width) by (nonlinear_arith);
        y += 1;
    }
    assert(height * width == width * height) by (nonlinear_arith);
    out
}

} // verus!
