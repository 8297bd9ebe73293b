use vstd::prelude::*;
use crate::field::{gradient_field, PixelField};
use crate::normalize::{
    channel, is_running_max, lemma_running_max_of_none, lemma_running_max_step, running_max,
    running_max_each, write_scalars, write_triples,
};
use crate::rgb::{clamp_to_byte, magnitude, Rgb};

verus! {

/// Sum over the three colour channels of the squared difference of two
/// samples.
pub open spec fn squared_difference(a: [u8; 4], b: [u8; 4]) -> int {
    (a[0] - b[0]) * (a[0] - b[0]) + (a[1] - b[1]) * (a[1] - b[1]) + (a[2] - b[2]) * (a[2] - b[2])
}

/// Energy of one pixel in combined mode: the squared difference along the
/// row plus the squared difference along the column, each taken by its
/// absolute value.
pub open spec fn combined_energy_of(x_next: [u8; 4], x_prev: [u8; 4], y_next: [u8; 4], y_prev: [
    u8;
    4
]) -> int {
    magnitude(squared_difference(x_next, x_prev)) + magnitude(squared_difference(y_next, y_prev))
}

/// Energy of one pixel in channel `c` in component mode: the absolute
/// difference along the row plus the absolute difference along the column.
pub open spec fn channel_energy_of(
    x_next: [u8; 4],
    x_prev: [u8; 4],
    y_next: [u8; 4],
    y_prev: [u8; 4],
    c: int,
) -> int {
    magnitude(x_next[c] - x_prev[c]) + magnitude(y_next[c] - y_prev[c])
}

/// The largest combined energy that two pairs of samples can have.
pub const MAX_COMBINED_ENERGY: u32 = 390150;

/// The largest energy that one channel can have in component mode.
pub const MAX_CHANNEL_ENERGY: u32 = 510;

/// A squared difference of samples is never negative and never exceeds
/// three times the square of 255.
pub proof fn lemma_squared_difference_bounds(a: [u8; 4], b: [u8; 4])
    ensures
        0 <= squared_difference(a, b) <= 195075,
{
    let r = a[0] - b[0];
    let g = a[1] - b[1];
    let bl = a[2] - b[2];
    assert(0 <= r * r <= 65025) by (nonlinear_arith)
        requires
            -255 <= r <= 255,
    ;
    assert(0 <= g * g <= 65025) by (nonlinear_arith)
        requires
            -255 <= g <= 255,
    ;
    assert(0 <= bl * bl <= 65025) by (nonlinear_arith)
        requires
            -255 <= bl <= 255,
    ;
}

/// No raw energy is negative, in either mode, and each has a fixed upper
/// bound.
pub proof fn lemma_energy_bounds(x_next: [u8; 4], x_prev: [u8; 4], y_next: [u8; 4], y_prev: [
    u8;
    4
])
    ensures
        0 <= combined_energy_of(x_next, x_prev, y_next, y_prev) <= MAX_COMBINED_ENERGY,
        forall|c: int|
            0 <= c < 3 ==> 0 <= #[trigger] channel_energy_of(x_next, x_prev, y_next, y_prev, c)
                <= MAX_CHANNEL_ENERGY,
{
    lemma_squared_difference_bounds(x_next, x_prev);
    lemma_squared_difference_bounds(y_next, y_prev);
}

/// Computes the combined energy of one pixel from the four neighbouring
/// samples of its gradient.
pub fn combined_energy(x_next: [u8; 4], x_prev: [u8; 4], y_next: [u8; 4], y_prev: [u8; 4]) -> (energy:
    u32)
    ensures
        energy == combined_energy_of(x_next, x_prev, y_next, y_prev),
        energy <= MAX_COMBINED_ENERGY,
{
    proof {
        lemma_squared_difference_bounds(x_next, x_prev);
        lemma_squared_difference_bounds(y_next, y_prev);
    }
    let dx: u64 = Rgb::from_rgba(&x_next).sub(Rgb::from_rgba(&x_prev)).squared_len();
    let dy: u64 = Rgb::from_rgba(&y_next).sub(Rgb::from_rgba(&y_prev)).squared_len();
    (dx + dy) as u32
}

/// Computes the energy of one pixel in each of the three channels from
/// the four neighbouring samples of its gradient.
pub fn component_energy(x_next: [u8; 4], x_prev: [u8; 4], y_next: [u8; 4], y_prev: [u8; 4]) -> (energy:
    [u32; 3])
    ensures
        forall|c: int|
            0 <= c < 3 ==> #[trigger] energy[c] == channel_energy_of(
                x_next,
                x_prev,
                y_next,
                y_prev,
                c,
            ),
        forall|c: int| 0 <= c < 3 ==> #[trigger] energy[c] <= MAX_CHANNEL_ENERGY,
{
    let dx: Rgb = Rgb::from_rgba(&x_next).sub(Rgb::from_rgba(&x_prev)).abs_each();
    let dy: Rgb = Rgb::from_rgba(&y_next).sub(Rgb::from_rgba(&y_prev)).abs_each();
    let sum: Rgb = dx.add(dy);
    [sum.r as u32, sum.g as u32, sum.b as u32]
}

/// The raw combined energy of every pixel of `field`, in row-major order.
pub open spec fn raw_combined(field: &PixelField<[u8; 4]>) -> Seq<int> {
    Seq::new(
        field@.len(),
        |i: int|
            {
                let s = field.stencil(i);
                combined_energy_of(s.0, s.1, s.2, s.3)
            },
    )
}

/// The raw energy in channel `c` of every pixel of `field`, in row-major
/// order.
pub open spec fn raw_channel(field: &PixelField<[u8; 4]>, c: int) -> Seq<int> {
    Seq::new(
        field@.len(),
        |i: int|
            {
                let s = field.stencil(i);
                channel_energy_of(s.0, s.1, s.2, s.3, c)
            },
    )
}

/// Computes the raw combined energy of every pixel.
pub fn raw_combined_rgb(field: &PixelField<[u8; 4]>) -> (out: Vec<u32>)
    requires
        field.wf(),
    ensures
        out@.len() == field@.len(),
        forall|i: int| 0 <= i < out@.len() ==> #[trigger] out@[i] == raw_combined(field)[i],
{
    gradient_field(field, combined_energy)
}

/// Computes the raw energy of every pixel in each of the three channels.
pub fn raw_component_rgb(field: &PixelField<[u8; 4]>) -> (out: Vec<[u32; 3]>)
    requires
        field.wf(),
    ensures
        out@.len() == field@.len(),
        forall|i: int, c: int|
            0 <= i < out@.len() && 0 <= c < 3 ==> #[trigger] out@[i][c] == raw_channel(field, c)[i],
{
    gradient_field(field, component_energy)
}

/// The largest value of `s`, or 0 where `s` is empty or holds nothing
/// above 0.
pub open spec fn seq_max(s: Seq<int>) -> int
    decreases s.len(),
{
    if s.len() == 0 {
        0
    } else {
        let rest = seq_max(s.drop_last());
        if s.last() > rest {
            s.last()
        } else {
            rest
        }
    }
}

/// The values of `v` as whole numbers.
pub open spec fn energies(v: Seq<u32>) -> Seq<int> {
    Seq::new(v.len(), |i: int| v[i] as int)
}

/// The values of channel `c` of `v` as whole numbers.
pub open spec fn channel_of(v: Seq<[u32; 3]>, c: int) -> Seq<int> {
    Seq::new(v.len(), |i: int| v[i][c] as int)
}

/// `seq_max` is an upper bound of every value, is never negative, and is
/// the value of some position unless it is 0.
pub proof fn lemma_seq_max_is_maximum(s: Seq<int>)
    ensures
        seq_max(s) >= 0,
        forall|i: int| 0 <= i < s.len() ==> #[trigger] s[i] <= seq_max(s),
        seq_max(s) > 0 ==> exists|i: int| 0 <= i < s.len() && #[trigger] s[i] == seq_max(s),
    decreases s.len(),
{
    if s.len() > 0 {
        let front = s.drop_last();
        lemma_seq_max_is_maximum(front);
        assert forall|i: int| 0 <= i < s.len() implies #[trigger] s[i] <= seq_max(s) by {
            if i < front.len() {
                assert(front[i] == s[i]);
            }
        }
        if seq_max(s) > 0 {
            if s.last() > seq_max(front) {
                assert(s[s.len() - 1] == seq_max(s));
            } else {
                let i = choose|i: int| 0 <= i < front.len() && #[trigger] front[i] == seq_max(front);
                assert(s[i] == seq_max(s));
            }
        }
    }
}

/// Tells whether the energy `a` is greater than the energy `b`.
pub fn is_greater(a: u32, b: u32) -> (greater: bool)
    ensures
        greater == (a > b),
{
    a > b
}

/// Tells whether the energy `m` is zero.
pub fn is_zero(m: u32) -> (zero: bool)
    ensures
        zero == (m == 0),
{
    m == 0
}

/// The running maximum of whole energies, started at 0, is the largest of
/// them.
pub proof fn lemma_running_max_is_largest(values: Seq<u32>, max: u32)
    requires
        is_running_max(is_greater, values, 0, max),
    ensures
        max == seq_max(energies(values)),
    decreases values.len(),
{
    if values.len() > 0 {
        let kept = lemma_running_max_step(is_greater, values, 0, max);
        lemma_running_max_is_largest(values.drop_last(), kept);
        assert(energies(values).drop_last() =~= energies(values.drop_last()));
        assert(energies(values).last() == values.last());
    } else {
        lemma_running_max_of_none(is_greater, values, 0, max);
        assert(energies(values).len() == 0);
    }
}

/// Computes the largest of the energies in `energy`.
pub fn max_energy(energy: &Vec<u32>) -> (max: u32)
    ensures
        max == seq_max(energies(energy@)),
{
    let max: u32 = running_max(energy, 0, is_greater);
    proof {
        lemma_running_max_is_largest(energy@, max);
    }
    max
}

/// Computes, for each of the three channels, the largest of the energies
/// in `energy`.
pub fn max_each(energy: &Vec<[u32; 3]>) -> (max: [u32; 3])
    ensures
        forall|c: int| 0 <= c < 3 ==> #[trigger] max[c] == seq_max(channel_of(energy@, c)),
{
    let max: [u32; 3] = running_max_each(energy, 0, is_greater);
    proof {
        assert forall|c: int| 0 <= c < 3 implies #[trigger] max[c] == seq_max(
            channel_of(energy@, c),
        ) by {
            lemma_running_max_is_largest(channel(energy@, c), max[c]);
            assert(energies(channel(energy@, c)) =~= channel_of(energy@, c));
        }
    }
    max
}

/// The byte that an energy `v` is shown as when the largest energy is
/// `m` and no curve is applied: `v / m` of 255, rounded down, and 0 where
/// `m` is 0.
pub open spec fn linear_byte_of(v: int, m: int) -> int {
    if m <= 0 {
        0
    } else {
        clamp_to_byte(v * 255 / m)
    }
}

/// Maps an energy `v` to a byte in proportion to the largest energy `m`.
pub fn linear_byte(v: u32, m: u32) -> (byte: u8)
    ensures
        byte == linear_byte_of(v as int, m as int),
{
    if m == 0 {
        0
    } else {
        let scaled: u64 = v as u64 * 255 / m as u64;
        if scaled > 255 {
            255
        } else {
            scaled as u8
        }
    }
}

/// `curve` can be called on every energy and every largest energy other
/// than 0.
pub open spec fn curve_accepts<F: Fn(u32, u32) -> u8>(curve: F) -> bool {
    forall|v: u32, m: u32| m > 0 ==> call_requires(curve, (v, m))
}

/// `byte` is what the energy `v` is written as under `curve` when the
/// largest energy is `m`: 0 where `m` is 0, and else a result of `curve`.
pub open spec fn mapped<F: Fn(u32, u32) -> u8>(curve: F, v: int, m: int, byte: u8) -> bool {
    if m == 0 {
        byte == 0
    } else {
        call_ensures(curve, (v as u32, m as u32), byte)
    }
}

/// Writes one byte per energy: 0 for all of them where `max` is 0, and
/// else what `curve` gives for the energy and `max`.
pub fn combined_write<F: Fn(u32, u32) -> u8>(energy: &Vec<u32>, max: u32, curve: F) -> (out: Vec<u8>)
    requires
        curve_accepts(curve),
    ensures
        out@.len() == energy@.len(),
        forall|i: int|
            0 <= i < out@.len() ==> mapped(curve, energy@[i] as int, max as int, #[trigger] out@[i]),
{
    write_scalars(energy, max, is_zero, curve)
}

/// Writes three bytes per pixel, one per channel in the order red, green,
/// blue: 0 in a channel whose largest energy is 0, and else what `curve`
/// gives for the energy and the largest energy of that channel.
pub fn component_write<F: Fn(u32, u32) -> u8>(energy: &Vec<[u32; 3]>, max: [u32; 3], curve: F) -> (out:
    Vec<u8>)
    requires
        curve_accepts(curve),
        3 * energy@.len() <= usize::MAX,
    ensures
        out@.len() == 3 * energy@.len(),
        forall|k: int|
            0 <= k < out@.len() ==> mapped(
                curve,
                energy@[k / 3][k % 3] as int,
                max[k % 3] as int,
                #[trigger] out@[k],
            ),
{
    write_triples(energy, max, is_zero, curve)
}

/// `out` is the combined-mode picture of `field` under `curve`: one byte
/// per pixel in row-major order, each the raw energy of its pixel mapped
/// against the largest raw energy of the whole image.
pub open spec fn is_combined_output<F: Fn(u32, u32) -> u8>(
    field: &PixelField<[u8; 4]>,
    curve: F,
    out: Seq<u8>,
) -> bool {
    &&& out.len() == field@.len()
    &&& forall|i: int|
        0 <= i < out.len() ==> mapped(
            curve,
            raw_combined(field)[i],
            seq_max(raw_combined(field)),
            #[trigger] out[i],
        )
}

/// `out` is the component-mode picture of `field` under `curve`: three
/// bytes per pixel in row-major order, red, green, blue, each the raw
/// energy of its pixel in that channel mapped against the largest raw
/// energy that the channel has in the whole image.
pub open spec fn is_component_output<F: Fn(u32, u32) -> u8>(
    field: &PixelField<[u8; 4]>,
    curve: F,
    out: Seq<u8>,
) -> bool {
    &&& out.len() == 3 * field@.len()
    &&& forall|k: int|
        0 <= k < out.len() ==> mapped(
            curve,
            raw_channel(field, k % 3)[k / 3],
            seq_max(raw_channel(field, k % 3)),
            #[trigger] out[k],
        )
}

/// Computes the combined-mode picture of `field` in RGB space: the raw
/// energy of every pixel and the largest of them in a first pass, the
/// bytes in a second.
pub fn energy_combined_rgb<F: Fn(u32, u32) -> u8>(field: &PixelField<[u8; 4]>, curve: F) -> (out: Vec<
    u8,
>)
    requires
        field.wf(),
        curve_accepts(curve),
    ensures
        out@.len() == field.width * field.height,
        is_combined_output(field, curve, out@),
{
    let raw: Vec<u32> = raw_combined_rgb(field);
    let max: u32 = max_energy(&raw);
    proof {
        assert(energies(raw@) =~= raw_combined(field));
    }
    combined_write(&raw, max, curve)
}

/// Computes the component-mode picture of `field` in RGB space: the raw
/// energy of every pixel in each channel and the largest per channel in a
/// first pass, the bytes in a second.
pub fn energy_component_rgb<F: Fn(u32, u32) -> u8>(field: &PixelField<[u8; 4]>, curve: F) -> (out:
    Vec<u8>)
    requires
        field.wf(),
        curve_accepts(curve),
        3 * field@.len() <= usize::MAX,
    ensures
        out@.len() == 3 * (field.width * field.height),
        is_component_output(field, curve, out@),
{
    let raw: Vec<[u32; 3]> = raw_component_rgb(field);
    let max: [u32; 3] = max_each(&raw);
    proof {
        assert(channel_of(raw@, 0) =~= raw_channel(field, 0));
        assert(channel_of(raw@, 1) =~= raw_channel(field, 1));
        assert(channel_of(raw@, 2) =~= raw_channel(field, 2));
    }
    component_write(&raw, max, curve)
}

} // verus!
